//! Kinds of the objects exchanged with the Dart VM, and their numeric codes
//! in the VM's C interface.
use vstd::prelude::*;

verus! {

/// A Dart port.
pub type Port = i64;

/// Element type of a typed data object.
#[derive(Copy, Clone, PartialEq, Eq, Structural, Debug)]
pub enum TypedDataType {
    ByteData,
    Int8,
    Uint8,
    Uint8Clamped,
    Int16,
    Uint16,
    Int32,
    Uint32,
    Int64,
    Uint64,
    Float32,
    Float64,
    Float32x4,
    Invalid,
}

/// The VM's code of each element type.
pub open spec fn typed_data_code(t: TypedDataType) -> i32 {
    match t {
        TypedDataType::ByteData => 0,
        TypedDataType::Int8 => 1,
        TypedDataType::Uint8 => 2,
        TypedDataType::Uint8Clamped => 3,
        TypedDataType::Int16 => 4,
        TypedDataType::Uint16 => 5,
        TypedDataType::Int32 => 6,
        TypedDataType::Uint32 => 7,
        TypedDataType::Int64 => 8,
        TypedDataType::Uint64 => 9,
        TypedDataType::Float32 => 10,
        TypedDataType::Float64 => 11,
        TypedDataType::Float32x4 => 12,
        TypedDataType::Invalid => 13,
    }
}

impl TypedDataType {
    /// The VM's code of this element type.
    pub fn code(&self) -> (c: i32)
        ensures
            c == typed_data_code(*self),
    {
        match self {
            TypedDataType::ByteData => 0,
            TypedDataType::Int8 => 1,
            TypedDataType::Uint8 => 2,
            TypedDataType::Uint8Clamped => 3,
            TypedDataType::Int16 => 4,
            TypedDataType::Uint16 => 5,
            TypedDataType::Int32 => 6,
            TypedDataType::Uint32 => 7,
            TypedDataType::Int64 => 8,
            TypedDataType::Uint64 => 9,
            TypedDataType::Float32 => 10,
            TypedDataType::Float64 => 11,
            TypedDataType::Float32x4 => 12,
            TypedDataType::Invalid => 13,
        }
    }

    /// The element type with VM code `code`, if there is one.
    pub fn from_code(code: i32) -> (t: Option<TypedDataType>)
        ensures
            match t {
                Some(t) => typed_data_code(t) == code,
                None => !(0 <= code <= 13),
            },
    {
        match code {
            0 => Some(TypedDataType::ByteData),
            1 => Some(TypedDataType::Int8),
            2 => Some(TypedDataType::Uint8),
            3 => Some(TypedDataType::Uint8Clamped),
            4 => Some(TypedDataType::Int16),
            5 => Some(TypedDataType::Uint16),
            6 => Some(TypedDataType::Int32),
            7 => Some(TypedDataType::Uint32),
            8 => Some(TypedDataType::Int64),
            9 => Some(TypedDataType::Uint64),
            10 => Some(TypedDataType::Float32),
            11 => Some(TypedDataType::Float64),
            12 => Some(TypedDataType::Float32x4),
            13 => Some(TypedDataType::Invalid),
            _ => None,
        }
    }
}

/// Kind of an object passed to or from the VM.
#[derive(Copy, Clone, PartialEq, Eq, Structural, Debug)]
pub enum CObjectType {
    Null,
    Bool,
    Int32,
    Int64,
    Double,
    String,
    Array,
    TypedData,
    ExternalTypedData,
    SendPort,
    Capability,
    NativePointer,
    Unsupported,
    NumberOfTypes,
}

/// The VM's code of each object kind.
pub open spec fn object_type_code(t: CObjectType) -> i32 {
    match t {
        CObjectType::Null => 0,
        CObjectType::Bool => 1,
        CObjectType::Int32 => 2,
        CObjectType::Int64 => 3,
        CObjectType::Double => 4,
        CObjectType::String => 5,
        CObjectType::Array => 6,
        CObjectType::TypedData => 7,
        CObjectType::ExternalTypedData => 8,
        CObjectType::SendPort => 9,
        CObjectType::Capability => 10,
        CObjectType::NativePointer => 11,
        CObjectType::Unsupported => 12,
        CObjectType::NumberOfTypes => 13,
    }
}

impl CObjectType {
    /// The VM's code of this kind.
    pub fn code(&self) -> (c: i32)
        ensures
            c == object_type_code(*self),
    {
        match self {
            CObjectType::Null => 0,
            CObjectType::Bool => 1,
            CObjectType::Int32 => 2,
            CObjectType::Int64 => 3,
            CObjectType::Double => 4,
            CObjectType::String => 5,
            CObjectType::Array => 6,
            CObjectType::TypedData => 7,
            CObjectType::ExternalTypedData => 8,
            CObjectType::SendPort => 9,
            CObjectType::Capability => 10,
            CObjectType::NativePointer => 11,
            CObjectType::Unsupported => 12,
            CObjectType::NumberOfTypes => 13,
        }
    }

    /// The kind with VM code `code`, if there is one.
    pub fn from_code(code: i32) -> (t: Option<CObjectType>)
        ensures
            match t {
                Some(t) => object_type_code(t) == code,
                None => !(0 <= code <= 13),
            },
    {
        match code {
            0 => Some(CObjectType::Null),
            1 => Some(CObjectType::Bool),
            2 => Some(CObjectType::Int32),
            3 => Some(CObjectType::Int64),
            4 => Some(CObjectType::Double),
            5 => Some(CObjectType::String),
            6 => Some(CObjectType::Array),
            7 => Some(CObjectType::TypedData),
            8 => Some(CObjectType::ExternalTypedData),
            9 => Some(CObjectType::SendPort),
            10 => Some(CObjectType::Capability),
            11 => Some(CObjectType::NativePointer),
            12 => Some(CObjectType::Unsupported),
            13 => Some(CObjectType::NumberOfTypes),
            _ => None,
        }
    }
}

/// Distinct element types have distinct codes, and reading a type back from
/// its code gives the type: the codes are a faithful encoding.
pub proof fn lemma_typed_data_codes(a: TypedDataType, b: TypedDataType)
    ensures
        typed_data_code(a) == typed_data_code(b) ==> a == b,
        0 <= typed_data_code(a) <= 13,
{
}

/// Distinct object kinds have distinct codes, each in `0..=13`.
pub proof fn lemma_object_type_codes(a: CObjectType, b: CObjectType)
    ensures
        object_type_code(a) == object_type_code(b) ==> a == b,
        0 <= object_type_code(a) <= 13,
{
}

/// A send port of the VM.
#[derive(Debug, Copy, Clone, PartialEq, Eq, Structural)]
pub struct CObjectSendPort {
    pub id: Port,
    pub origin_id: Port,
}

/// A capability of the VM.
#[derive(Debug, Copy, Clone, PartialEq, Eq, Structural)]
pub struct CObjectCapability {
    pub id: i64,
}

/// Element types that can be sent to the VM as a typed list.
pub trait IntoDartVec<T> {
    /// The VM's element type.
    fn dart_type() -> TypedDataType;
}

impl IntoDartVec<u8> for u8 {
    fn dart_type() -> (t: TypedDataType)
        ensures
            t == TypedDataType::Uint8,
    {
        TypedDataType::Uint8
    }
}

impl IntoDartVec<i8> for i8 {
    fn dart_type() -> (t: TypedDataType)
        ensures
            t == TypedDataType::Int8,
    {
        TypedDataType::Int8
    }
}

impl IntoDartVec<u16> for u16 {
    fn dart_type() -> (t: TypedDataType)
        ensures
            t == TypedDataType::Uint16,
    {
        TypedDataType::Uint16
    }
}

impl IntoDartVec<i16> for i16 {
    fn dart_type() -> (t: TypedDataType)
        ensures
            t == TypedDataType::Int16,
    {
        TypedDataType::Int16
    }
}

impl IntoDartVec<u32> for u32 {
    fn dart_type() -> (t: TypedDataType)
        ensures
            t == TypedDataType::Uint32,
    {
        TypedDataType::Uint32
    }
}

impl IntoDartVec<i32> for i32 {
    fn dart_type() -> (t: TypedDataType)
        ensures
            t == TypedDataType::Int32,
    {
        TypedDataType::Int32
    }
}

impl IntoDartVec<u64> for u64 {
    fn dart_type() -> (t: TypedDataType)
        ensures
            t == TypedDataType::Uint64,
    {
        TypedDataType::Uint64
    }
}

impl IntoDartVec<i64> for i64 {
    fn dart_type() -> (t: TypedDataType)
        ensures
            t == TypedDataType::Int64,
    {
        TypedDataType::Int64
    }
}

/// A vector sent to the VM as typed data rather than as an array of objects.
pub struct TypedList<T>(pub T);

} // verus!
