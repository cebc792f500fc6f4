//! The normalized intermediate representation of a wrapped C++ API.
use vstd::prelude::*;

use crate::kind::{FieldAccessKind, IrFunctionKind, IrTypeKind, RecordKind};


pub use crate::naming::flatten_cpp_name;
pub use crate::types::{
    byte_array_length, fixed_array_elem_type, fixed_array_length,
    raw_safe_model_handle_name,
};

verus! {

pub open spec fn opt_view(o: Option<String>) -> Option<Seq<char>> {
    match o {
        Some(s) => Some(s@),
        None => None,
    }
}

pub open spec fn strs(v: Seq<String>) -> Seq<Seq<char>> {
    v.map_values(|s: String| s@)
}

pub fn copy_opt(o: &Option<String>) -> (r: Option<String>)
    ensures
        opt_view(r) == opt_view(*o),
{
    match o {
        Some(s) => Some(s.clone()),
        None => None,
    }
}

pub fn copy_strings(v: &Vec<String>) -> (r: Vec<String>)
    ensures
        strs(r@) == strs(v@),
{
    let mut r: Vec<String> = Vec::new();
    let mut i: usize = 0;
    while i < v.len()
        invariant
            i <= v.len(),
            strs(r@) =~= strs(v@.take(i as int)),
        decreases v.len() - i,
    {
        let c = v[i].clone();
        let ghost before = r@;
        r.push(c);
        assert(v@.take(i + 1) =~= v@.take(i as int).push(v@[i as int]));
        assert(strs(r@) =~= strs(before).push(c@));
        assert(strs(v@.take(i + 1)) =~= strs(v@.take(i as int)).push(v@[i as int]@));
        i = i + 1;
    }
    assert(v@.take(i as int) =~= v@);
    r
}

/// Whether `s` is one of the strings of `v`.
pub fn contains_str(v: &Vec<String>, s: &[char]) -> (b: bool)
    ensures
        b == strs(v@).contains(s@),
{
    let mut i: usize = 0;
    while i < v.len()
        invariant
            i <= v.len(),
            forall|k: int| 0 <= k < i ==> v@[k]@ != s@,
        decreases v.len() - i,
    {
        let c = crate::text::chars_of(v[i].as_str());
        if crate::text::seq_eq(c.as_slice(), s) {
            assert(strs(v@)[i as int] == s@);
            return true;
        }
        i = i + 1;
    }
    assert forall|k: int| 0 <= k < strs(v@).len() implies strs(v@)[k] != s@ by {
        assert(strs(v@)[k] == v@[k]@);
    }
    false
}

#[derive(Debug, Clone)]
pub struct IrType {
    pub kind: IrTypeKind,
    pub cpp_type: String,
    pub c_type: String,
    pub handle: Option<String>,
}

pub struct IrTypeV {
    pub kind: IrTypeKind,
    pub cpp_type: Seq<char>,
    pub c_type: Seq<char>,
    pub handle: Option<Seq<char>>,
}

impl View for IrType {
    type V = IrTypeV;

    open spec fn view(&self) -> IrTypeV {
        IrTypeV {
            kind: self.kind,
            cpp_type: self.cpp_type@,
            c_type: self.c_type@,
            handle: opt_view(self.handle),
        }
    }
}

impl IrType {
    pub fn copy(&self) -> (r: IrType)
        ensures
            r@ == self@,
    {
        IrType {
            kind: self.kind,
            cpp_type: self.cpp_type.clone(),
            c_type: self.c_type.clone(),
            handle: copy_opt(&self.handle),
        }
    }
}

#[derive(Debug, Clone)]
pub struct IrParam {
    pub name: String,
    pub ty: IrType,
}

pub struct IrParamV {
    pub name: Seq<char>,
    pub ty: IrTypeV,
}

impl View for IrParam {
    type V = IrParamV;

    open spec fn view(&self) -> IrParamV {
        IrParamV { name: self.name@, ty: self.ty@ }
    }
}

impl IrParam {
    pub fn copy(&self) -> (r: IrParam)
        ensures
            r@ == self@,
    {
        IrParam { name: self.name.clone(), ty: self.ty.copy() }
    }
}

pub open spec fn params_view(v: Seq<IrParam>) -> Seq<IrParamV> {
    v.map_values(|p: IrParam| p@)
}

#[derive(Debug, Clone)]
pub struct IrFieldAccessor {
    pub field_name: String,
    pub access: FieldAccessKind,
    pub array_len: Option<usize>,
}

#[derive(Debug, Clone)]
pub struct IrFunction {
    pub name: String,
    pub kind: IrFunctionKind,
    pub cpp_name: String,
    pub method_of: Option<String>,
    pub owner_cpp_type: Option<String>,
    pub is_const: Option<bool>,
    pub field_accessor: Option<IrFieldAccessor>,
    pub returns: IrType,
    pub params: Vec<IrParam>,
}

pub struct IrFieldAccessorV {
    pub field_name: Seq<char>,
    pub access: FieldAccessKind,
    pub array_len: Option<usize>,
}

impl View for IrFieldAccessor {
    type V = IrFieldAccessorV;

    open spec fn view(&self) -> IrFieldAccessorV {
        IrFieldAccessorV {
            field_name: self.field_name@,
            access: self.access,
            array_len: self.array_len,
        }
    }
}

pub open spec fn accessor_view(a: Option<IrFieldAccessor>) -> Option<IrFieldAccessorV> {
    match a {
        Some(x) => Some(x@),
        None => None,
    }
}

pub struct IrFunctionV {
    pub name: Seq<char>,
    pub kind: IrFunctionKind,
    pub cpp_name: Seq<char>,
    pub method_of: Option<Seq<char>>,
    pub owner_cpp_type: Option<Seq<char>>,
    pub is_const: Option<bool>,
    pub field_accessor: Option<IrFieldAccessorV>,
    pub returns: IrTypeV,
    pub params: Seq<IrParamV>,
}

impl View for IrFunction {
    type V = IrFunctionV;

    open spec fn view(&self) -> IrFunctionV {
        IrFunctionV {
            name: self.name@,
            kind: self.kind,
            cpp_name: self.cpp_name@,
            method_of: opt_view(self.method_of),
            owner_cpp_type: opt_view(self.owner_cpp_type),
            is_const: self.is_const,
            field_accessor: accessor_view(self.field_accessor),
            returns: self.returns@,
            params: params_view(self.params@),
        }
    }
}

pub fn copy_params(v: &Vec<IrParam>) -> (r: Vec<IrParam>)
    ensures
        params_view(r@) == params_view(v@),
{
    let mut out: Vec<IrParam> = Vec::new();
    let mut i: usize = 0;
    while i < v.len()
        invariant
            i <= v.len(),
            params_view(out@) =~= params_view(v@).take(i as int),
        decreases v.len() - i,
    {
        let ghost before = out@;
        out.push(v[i].copy());
        assert(params_view(out@) =~= params_view(before).push(v@[i as int]@));
        i = i + 1;
    }
    assert(params_view(v@).take(i as int) =~= params_view(v@));
    out
}

impl IrFunction {
    pub fn copy(&self) -> (r: IrFunction)
        ensures
            r@ == self@,
    {
        let field_accessor = match &self.field_accessor {
            Some(a) => Some(
                IrFieldAccessor {
                    field_name: a.field_name.clone(),
                    access: a.access,
                    array_len: a.array_len,
                },
            ),
            None => None,
        };
        IrFunction {
            name: self.name.clone(),
            kind: self.kind,
            cpp_name: self.cpp_name.clone(),
            method_of: copy_opt(&self.method_of),
            owner_cpp_type: copy_opt(&self.owner_cpp_type),
            is_const: self.is_const,
            field_accessor,
            returns: self.returns.copy(),
            params: copy_params(&self.params),
        }
    }
}

pub open spec fn functions_view(v: Seq<IrFunction>) -> Seq<IrFunctionV> {
    v.map_values(|f: IrFunction| f@)
}

#[derive(Debug, Clone)]
pub struct OpaqueType {
    pub name: String,
    pub cpp_type: String,
}

pub open spec fn opaques_view(v: Seq<OpaqueType>) -> Seq<(Seq<char>, Seq<char>)> {
    v.map_values(|o: OpaqueType| (o.name@, o.cpp_type@))
}

#[derive(Debug, Clone)]
pub struct IrRecord {
    pub cpp_type: String,
    pub handle_name: String,
    pub kind: RecordKind,
}

pub struct IrRecordV {
    pub cpp_type: Seq<char>,
    pub handle_name: Seq<char>,
    pub kind: RecordKind,
}

impl View for IrRecord {
    type V = IrRecordV;

    open spec fn view(&self) -> IrRecordV {
        IrRecordV { cpp_type: self.cpp_type@, handle_name: self.handle_name@, kind: self.kind }
    }
}

pub open spec fn records_view(v: Seq<IrRecord>) -> Seq<IrRecordV> {
    v.map_values(|r: IrRecord| r@)
}

#[derive(Debug, Clone)]
pub struct IrCallback {
    pub name: String,
    pub cpp_name: String,
    pub returns: IrType,
    pub params: Vec<IrParam>,
}

#[derive(Debug, Clone)]
pub struct IrEnum {
    pub name: String,
    pub cpp_name: String,
    pub is_anonymous: bool,
    pub variants: Vec<IrEnumVariant>,
}

#[derive(Debug, Clone)]
pub struct IrEnumVariant {
    pub name: String,
    pub value: Option<String>,
}

pub struct IrCallbackV {
    pub name: Seq<char>,
    pub cpp_name: Seq<char>,
    pub returns: IrTypeV,
    pub params: Seq<IrParamV>,
}

impl View for IrCallback {
    type V = IrCallbackV;

    open spec fn view(&self) -> IrCallbackV {
        IrCallbackV {
            name: self.name@,
            cpp_name: self.cpp_name@,
            returns: self.returns@,
            params: params_view(self.params@),
        }
    }
}

pub struct IrEnumV {
    pub name: Seq<char>,
    pub cpp_name: Seq<char>,
    pub is_anonymous: bool,
    pub variants: Seq<(Seq<char>, Option<Seq<char>>)>,
}

pub open spec fn variants_view(v: Seq<IrEnumVariant>) -> Seq<(Seq<char>, Option<Seq<char>>)> {
    v.map_values(|x: IrEnumVariant| (x.name@, opt_view(x.value)))
}

impl View for IrEnum {
    type V = IrEnumV;

    open spec fn view(&self) -> IrEnumV {
        IrEnumV {
            name: self.name@,
            cpp_name: self.cpp_name@,
            is_anonymous: self.is_anonymous,
            variants: variants_view(self.variants@),
        }
    }
}

#[derive(Debug, Clone)]
pub struct IrMacroConstant {
    pub name: String,
    pub value: String,
}

#[derive(Debug, Clone)]
pub struct SupportMetadata {
    pub parser_backend: String,
    pub notes: Vec<String>,
    pub skipped_declarations: Vec<SkippedDeclaration>,
}

#[derive(Debug, Clone)]
pub struct SkippedDeclaration {
    pub cpp_name: String,
    pub reason: String,
}

#[derive(Debug, Clone)]
pub struct IrModule {
    pub version: u32,
    pub module: String,
    pub source_headers: Vec<String>,
    pub records: Vec<IrRecord>,
    pub opaque_types: Vec<OpaqueType>,
    pub functions: Vec<IrFunction>,
    pub enums: Vec<IrEnum>,
    pub constants: Vec<IrMacroConstant>,
    pub callbacks: Vec<IrCallback>,
    pub support: SupportMetadata,
}

} // verus!
