//! Classifications used throughout the intermediate representation.
use vstd::prelude::*;

verus! {

/// Classifies the type of an IR type node.
#[derive(Debug, Clone, Copy, PartialEq, Eq, Structural)]
pub enum IrTypeKind {
    Void,
    Primitive,
    Enum,
    CString,
    FixedByteArray,
    FixedArray,
    FixedModelArray,
    String,
    Pointer,
    Reference,
    Opaque,
    Callback,
    ExternStructReference,
    ExternStructPointer,
    ModelReference,
    ModelPointer,
    ModelValue,
}

/// Distinguishes parsed C++ record declarations.
#[derive(Debug, Clone, Copy, PartialEq, Eq, Structural)]
pub enum RecordKind {
    Struct,
    Class,
}

/// Classifies the role of an IR function node.
#[derive(Debug, Clone, Copy, PartialEq, Eq, Structural)]
pub enum IrFunctionKind {
    Function,
    Method,
    Constructor,
    Destructor,
}

/// Distinguishes getter vs setter field accessors.
#[derive(Debug, Clone, Copy, PartialEq, Eq, Structural)]
pub enum FieldAccessKind {
    Get,
    Put,
    GetAt,
    SetAt,
}

/// The three model kinds: handles to C++ objects by reference, pointer or value.
pub open spec fn is_model_kind(k: IrTypeKind) -> bool {
    k == IrTypeKind::ModelReference || k == IrTypeKind::ModelPointer || k
        == IrTypeKind::ModelValue
}

pub fn kind_is_model(k: IrTypeKind) -> (b: bool)
    ensures
        b == is_model_kind(k),
{
    k == IrTypeKind::ModelReference || k == IrTypeKind::ModelPointer || k
        == IrTypeKind::ModelValue
}

/// The wire name under which a type kind is serialized.
pub fn type_kind_wire_name(k: IrTypeKind) -> (r: &'static str)
    ensures
        r@ == type_kind_wire(k),
{
    match k {
        IrTypeKind::Void => "void",
        IrTypeKind::Primitive => "primitive",
        IrTypeKind::Enum => "enum",
        IrTypeKind::CString => "c_string",
        IrTypeKind::FixedByteArray => "fixed_byte_array",
        IrTypeKind::FixedArray => "fixed_array",
        IrTypeKind::FixedModelArray => "fixed_model_array",
        IrTypeKind::String => "string",
        IrTypeKind::Pointer => "pointer",
        IrTypeKind::Reference => "reference",
        IrTypeKind::Opaque => "opaque",
        IrTypeKind::Callback => "callback",
        IrTypeKind::ExternStructReference => "extern_struct_reference",
        IrTypeKind::ExternStructPointer => "extern_struct_pointer",
        IrTypeKind::ModelReference => "model_reference",
        IrTypeKind::ModelPointer => "model_pointer",
        IrTypeKind::ModelValue => "model_value",
    }
}

pub open spec fn type_kind_wire(k: IrTypeKind) -> Seq<char> {
    match k {
        IrTypeKind::Void => "void"@,
        IrTypeKind::Primitive => "primitive"@,
        IrTypeKind::Enum => "enum"@,
        IrTypeKind::CString => "c_string"@,
        IrTypeKind::FixedByteArray => "fixed_byte_array"@,
        IrTypeKind::FixedArray => "fixed_array"@,
        IrTypeKind::FixedModelArray => "fixed_model_array"@,
        IrTypeKind::String => "string"@,
        IrTypeKind::Pointer => "pointer"@,
        IrTypeKind::Reference => "reference"@,
        IrTypeKind::Opaque => "opaque"@,
        IrTypeKind::Callback => "callback"@,
        IrTypeKind::ExternStructReference => "extern_struct_reference"@,
        IrTypeKind::ExternStructPointer => "extern_struct_pointer"@,
        IrTypeKind::ModelReference => "model_reference"@,
        IrTypeKind::ModelPointer => "model_pointer"@,
        IrTypeKind::ModelValue => "model_value"@,
    }
}

} // verus!
