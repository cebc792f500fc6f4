//! Go and cgo spellings of IR types, and the names the Go facade exports.
use vstd::prelude::*;

use crate::case::{go_export, go_export_name, go_token, sanitize_go_token};
use crate::context::{first_projection, PipelineContext};
use crate::ir::{opt_view, params_view, IrFunction, IrFunctionV, IrParamV, IrType, IrTypeV};
use crate::kind::{IrFunctionKind, IrTypeKind};
use crate::naming::{overload, overload_suffix};
use crate::text::{
    after_last, after_last_lit, all_digits, all_digits_exec, chars_of, eq_lit, push_chars,
    push_str, push_string, remove_all, remove_all_lit, rfind, rfind_lit, seq_eq, slice_vec,
    starts_with, string_of, strip_prefix, strip_prefix_lit, strip_suffix, strip_suffix_lit,
    trim, trim_end_char, trim_end_char_vec, trim_start_matches, trim_start_matches_lit, trim_vec,
};
use crate::types::{base_model, base_model_vec, enum_base, enum_base_vec, parse_array, parse_array_vec};

verus! {

/// The key under which a type spelling is looked up: spaces removed, a leading `const`
/// removed, trailing `&` then `*` removed.
pub open spec fn type_key(v: Seq<char>) -> Seq<char> {
    trim_end_char(trim_end_char(trim_start_matches(remove_all(v, " "@), "const"@), '&'), '*')
}

pub fn normalize_type_key_vec(v: &[char]) -> (r: Vec<char>)
    ensures
        r@ == type_key(v@),
{
    let a = remove_all_lit(v, " ");
    let b = trim_start_matches_lit(a.as_slice(), "const");
    let c = trim_end_char_vec(b.as_slice(), '&');
    trim_end_char_vec(c.as_slice(), '*')
}

pub fn normalize_type_key(value: &str) -> (r: String)
    ensures
        r@ == type_key(value@),
{
    let v = chars_of(value);
    let k = normalize_type_key_vec(v.as_slice());
    string_of(k.as_slice())
}

/// The Go type of a primitive, by its type key.
pub open spec fn go_prim(k: Seq<char>) -> Option<Seq<char>> {
    if k == "bool"@ {
        Some("bool"@)
    } else if k == "float"@ {
        Some("float32"@)
    } else if k == "double"@ {
        Some("float64"@)
    } else if k == "int8"@ || k == "int8_t"@ || k == "signedchar"@ {
        Some("int8"@)
    } else if k == "int16"@ || k == "int16_t"@ || k == "short"@ {
        Some("int16"@)
    } else if k == "int32"@ || k == "int32_t"@ {
        Some("int32"@)
    } else if k == "int64"@ || k == "int64_t"@ || k == "long"@ || k == "longlong"@ {
        Some("int64"@)
    } else if k == "uint8"@ || k == "uint8_t"@ || k == "unsignedchar"@ {
        Some("uint8"@)
    } else if k == "uint16"@ || k == "uint16_t"@ || k == "unsignedshort"@ {
        Some("uint16"@)
    } else if k == "uint32"@ || k == "uint32_t"@ || k == "unsignedint"@ || k == "unsigned"@ {
        Some("uint32"@)
    } else if k == "int"@ {
        Some("int32"@)
    } else if k == "uint64"@ || k == "uint64_t"@ || k == "unsignedlong"@ || k == "unsignedlonglong"@ {
        Some("uint64"@)
    } else if k == "size_t"@ {
        Some("uintptr"@)
    } else {
        None
    }
}

pub fn go_prim_of(k: &[char]) -> (r: Option<&'static str>)
    ensures
        match go_prim(k@) {
            Some(v) => r is Some && r->0@ == v,
            None => r is None,
        },
{
    if eq_lit(k, "bool") {
        Some("bool")
    } else if eq_lit(k, "float") {
        Some("float32")
    } else if eq_lit(k, "double") {
        Some("float64")
    } else if eq_lit(k, "int8") || eq_lit(k, "int8_t") || eq_lit(k, "signedchar") {
        Some("int8")
    } else if eq_lit(k, "int16") || eq_lit(k, "int16_t") || eq_lit(k, "short") {
        Some("int16")
    } else if eq_lit(k, "int32") || eq_lit(k, "int32_t") {
        Some("int32")
    } else if eq_lit(k, "int64") || eq_lit(k, "int64_t") || eq_lit(k, "long") || eq_lit(k, "longlong") {
        Some("int64")
    } else if eq_lit(k, "uint8") || eq_lit(k, "uint8_t") || eq_lit(k, "unsignedchar") {
        Some("uint8")
    } else if eq_lit(k, "uint16") || eq_lit(k, "uint16_t") || eq_lit(k, "unsignedshort") {
        Some("uint16")
    } else if eq_lit(k, "uint32") || eq_lit(k, "uint32_t") || eq_lit(k, "unsignedint") || eq_lit(k, "unsigned") {
        Some("uint32")
    } else if eq_lit(k, "int") {
        Some("int32")
    } else if eq_lit(k, "uint64") || eq_lit(k, "uint64_t") || eq_lit(k, "unsignedlong") || eq_lit(k, "unsignedlonglong") {
        Some("uint64")
    } else if eq_lit(k, "size_t") {
        Some("uintptr")
    } else {
        None
    }
}

/// The cgo type of a primitive, by its type key.
pub open spec fn cgo_prim(k: Seq<char>) -> Option<Seq<char>> {
    if k == "bool"@ {
        Some("C.bool"@)
    } else if k == "float"@ {
        Some("C.float"@)
    } else if k == "double"@ {
        Some("C.double"@)
    } else if k == "int8"@ || k == "int8_t"@ || k == "signedchar"@ {
        Some("C.int8_t"@)
    } else if k == "int16"@ || k == "int16_t"@ || k == "short"@ {
        Some("C.int16_t"@)
    } else if k == "int32"@ || k == "int32_t"@ {
        Some("C.int32_t"@)
    } else if k == "int64"@ || k == "int64_t"@ {
        Some("C.int64_t"@)
    } else if k == "uint8"@ || k == "uint8_t"@ || k == "unsignedchar"@ {
        Some("C.uint8_t"@)
    } else if k == "uint16"@ || k == "uint16_t"@ || k == "unsignedshort"@ {
        Some("C.uint16_t"@)
    } else if k == "uint32"@ || k == "uint32_t"@ || k == "unsignedint"@ || k == "unsigned"@ {
        Some("C.uint32_t"@)
    } else if k == "uint64"@ || k == "uint64_t"@ {
        Some("C.uint64_t"@)
    } else if k == "unsignedlong"@ {
        Some("C.ulong"@)
    } else if k == "unsignedlonglong"@ {
        Some("C.ulonglong"@)
    } else if k == "int"@ {
        Some("C.int"@)
    } else if k == "long"@ {
        Some("C.long"@)
    } else if k == "longlong"@ || k == "signedlonglong"@ {
        Some("C.longlong"@)
    } else if k == "size_t"@ {
        Some("C.size_t"@)
    } else {
        None
    }
}

pub fn cgo_prim_of(k: &[char]) -> (r: Option<&'static str>)
    ensures
        match cgo_prim(k@) {
            Some(v) => r is Some && r->0@ == v,
            None => r is None,
        },
{
    if eq_lit(k, "bool") {
        Some("C.bool")
    } else if eq_lit(k, "float") {
        Some("C.float")
    } else if eq_lit(k, "double") {
        Some("C.double")
    } else if eq_lit(k, "int8") || eq_lit(k, "int8_t") || eq_lit(k, "signedchar") {
        Some("C.int8_t")
    } else if eq_lit(k, "int16") || eq_lit(k, "int16_t") || eq_lit(k, "short") {
        Some("C.int16_t")
    } else if eq_lit(k, "int32") || eq_lit(k, "int32_t") {
        Some("C.int32_t")
    } else if eq_lit(k, "int64") || eq_lit(k, "int64_t") {
        Some("C.int64_t")
    } else if eq_lit(k, "uint8") || eq_lit(k, "uint8_t") || eq_lit(k, "unsignedchar") {
        Some("C.uint8_t")
    } else if eq_lit(k, "uint16") || eq_lit(k, "uint16_t") || eq_lit(k, "unsignedshort") {
        Some("C.uint16_t")
    } else if eq_lit(k, "uint32") || eq_lit(k, "uint32_t") || eq_lit(k, "unsignedint") || eq_lit(k, "unsigned") {
        Some("C.uint32_t")
    } else if eq_lit(k, "uint64") || eq_lit(k, "uint64_t") {
        Some("C.uint64_t")
    } else if eq_lit(k, "unsignedlong") {
        Some("C.ulong")
    } else if eq_lit(k, "unsignedlonglong") {
        Some("C.ulonglong")
    } else if eq_lit(k, "int") {
        Some("C.int")
    } else if eq_lit(k, "long") {
        Some("C.long")
    } else if eq_lit(k, "longlong") || eq_lit(k, "signedlonglong") {
        Some("C.longlong")
    } else if eq_lit(k, "size_t") {
        Some("C.size_t")
    } else {
        None
    }
}

/// The Go type of a C type key, `int` when unknown.
pub open spec fn go_from_c(k: Seq<char>) -> Option<Seq<char>> {
    if k == "bool"@ {
        Some("bool"@)
    } else if k == "float"@ {
        Some("float32"@)
    } else if k == "double"@ {
        Some("float64"@)
    } else if k == "int8"@ || k == "int8_t"@ {
        Some("int8"@)
    } else if k == "int16"@ || k == "int16_t"@ || k == "short"@ {
        Some("int16"@)
    } else if k == "int32"@ || k == "int32_t"@ || k == "int"@ {
        Some("int32"@)
    } else if k == "int64"@ || k == "int64_t"@ || k == "long"@ {
        Some("int64"@)
    } else if k == "uint8"@ || k == "uint8_t"@ {
        Some("uint8"@)
    } else if k == "uint16"@ || k == "uint16_t"@ {
        Some("uint16"@)
    } else if k == "uint32"@ || k == "uint32_t"@ || k == "unsignedint"@ || k == "unsigned"@ {
        Some("uint32"@)
    } else if k == "uint64"@ || k == "uint64_t"@ || k == "unsignedlong"@ || k == "unsignedlonglong"@ {
        Some("uint64"@)
    } else if k == "size_t"@ {
        Some("uintptr"@)
    } else {
        Some("int"@)
    }
}

pub fn go_from_c_of(k: &[char]) -> (r: Option<&'static str>)
    ensures
        match go_from_c(k@) {
            Some(v) => r is Some && r->0@ == v,
            None => r is None,
        },
{
    if eq_lit(k, "bool") {
        Some("bool")
    } else if eq_lit(k, "float") {
        Some("float32")
    } else if eq_lit(k, "double") {
        Some("float64")
    } else if eq_lit(k, "int8") || eq_lit(k, "int8_t") {
        Some("int8")
    } else if eq_lit(k, "int16") || eq_lit(k, "int16_t") || eq_lit(k, "short") {
        Some("int16")
    } else if eq_lit(k, "int32") || eq_lit(k, "int32_t") || eq_lit(k, "int") {
        Some("int32")
    } else if eq_lit(k, "int64") || eq_lit(k, "int64_t") || eq_lit(k, "long") {
        Some("int64")
    } else if eq_lit(k, "uint8") || eq_lit(k, "uint8_t") {
        Some("uint8")
    } else if eq_lit(k, "uint16") || eq_lit(k, "uint16_t") {
        Some("uint16")
    } else if eq_lit(k, "uint32") || eq_lit(k, "uint32_t") || eq_lit(k, "unsignedint") || eq_lit(k, "unsigned") {
        Some("uint32")
    } else if eq_lit(k, "uint64") || eq_lit(k, "uint64_t") || eq_lit(k, "unsignedlong") || eq_lit(k, "unsignedlonglong") {
        Some("uint64")
    } else if eq_lit(k, "size_t") {
        Some("uintptr")
    } else {
        Some("int")
    }
}

/// The cgo type of a C type key, `C.int` when unknown.
pub open spec fn cgo_from_c(k: Seq<char>) -> Option<Seq<char>> {
    if k == "bool"@ {
        Some("C.bool"@)
    } else if k == "float"@ {
        Some("C.float"@)
    } else if k == "double"@ {
        Some("C.double"@)
    } else if k == "int8"@ || k == "int8_t"@ {
        Some("C.int8_t"@)
    } else if k == "int16"@ || k == "int16_t"@ {
        Some("C.int16_t"@)
    } else if k == "int32"@ || k == "int32_t"@ {
        Some("C.int32_t"@)
    } else if k == "int64"@ || k == "int64_t"@ {
        Some("C.int64_t"@)
    } else if k == "uint8"@ || k == "uint8_t"@ {
        Some("C.uint8_t"@)
    } else if k == "uint16"@ || k == "uint16_t"@ {
        Some("C.uint16_t"@)
    } else if k == "uint32"@ || k == "uint32_t"@ || k == "unsignedint"@ || k == "unsigned"@ {
        Some("C.uint32_t"@)
    } else if k == "uint64"@ || k == "uint64_t"@ {
        Some("C.uint64_t"@)
    } else if k == "unsignedlonglong"@ {
        Some("C.ulonglong"@)
    } else if k == "longlong"@ || k == "signedlonglong"@ {
        Some("C.longlong"@)
    } else if k == "ulong"@ || k == "unsignedlong"@ {
        Some("C.ulong"@)
    } else if k == "short"@ {
        Some("C.short"@)
    } else if k == "long"@ {
        Some("C.long"@)
    } else if k == "size_t"@ {
        Some("C.size_t"@)
    } else {
        Some("C.int"@)
    }
}

pub fn cgo_from_c_of(k: &[char]) -> (r: Option<&'static str>)
    ensures
        match cgo_from_c(k@) {
            Some(v) => r is Some && r->0@ == v,
            None => r is None,
        },
{
    if eq_lit(k, "bool") {
        Some("C.bool")
    } else if eq_lit(k, "float") {
        Some("C.float")
    } else if eq_lit(k, "double") {
        Some("C.double")
    } else if eq_lit(k, "int8") || eq_lit(k, "int8_t") {
        Some("C.int8_t")
    } else if eq_lit(k, "int16") || eq_lit(k, "int16_t") {
        Some("C.int16_t")
    } else if eq_lit(k, "int32") || eq_lit(k, "int32_t") {
        Some("C.int32_t")
    } else if eq_lit(k, "int64") || eq_lit(k, "int64_t") {
        Some("C.int64_t")
    } else if eq_lit(k, "uint8") || eq_lit(k, "uint8_t") {
        Some("C.uint8_t")
    } else if eq_lit(k, "uint16") || eq_lit(k, "uint16_t") {
        Some("C.uint16_t")
    } else if eq_lit(k, "uint32") || eq_lit(k, "uint32_t") || eq_lit(k, "unsignedint") || eq_lit(k, "unsigned") {
        Some("C.uint32_t")
    } else if eq_lit(k, "uint64") || eq_lit(k, "uint64_t") {
        Some("C.uint64_t")
    } else if eq_lit(k, "unsignedlonglong") {
        Some("C.ulonglong")
    } else if eq_lit(k, "longlong") || eq_lit(k, "signedlonglong") {
        Some("C.longlong")
    } else if eq_lit(k, "ulong") || eq_lit(k, "unsignedlong") {
        Some("C.ulong")
    } else if eq_lit(k, "short") {
        Some("C.short")
    } else if eq_lit(k, "long") {
        Some("C.long")
    } else if eq_lit(k, "size_t") {
        Some("C.size_t")
    } else {
        Some("C.int")
    }
}

/// The type keys of the built-in C/C++ primitives.
pub open spec fn builtin_key(k: Seq<char>) -> bool {
    k == "bool"@ || k == "float"@ || k == "double"@ || k == "int8"@ || k == "int8_t"@ || k == "signedchar"@ || k == "int16"@ || k == "int16_t"@ || k == "short"@ || k == "int32"@ || k == "int32_t"@ || k == "int"@ || k == "int64"@ || k == "int64_t"@ || k == "long"@ || k == "longlong"@ || k == "uint8"@ || k == "uint8_t"@ || k == "unsignedchar"@ || k == "uint16"@ || k == "uint16_t"@ || k == "unsignedshort"@ || k == "uint32"@ || k == "uint32_t"@ || k == "unsignedint"@ || k == "unsigned"@ || k == "uint64"@ || k == "uint64_t"@ || k == "unsignedlong"@ || k == "unsignedlonglong"@ || k == "size_t"@
}

pub fn is_builtin_primitive_key(k: &[char]) -> (b: bool)
    ensures
        b == builtin_key(k@),
{
    eq_lit(k, "bool") || eq_lit(k, "float") || eq_lit(k, "double") || eq_lit(k, "int8") || eq_lit(k, "int8_t") || eq_lit(k, "signedchar") || eq_lit(k, "int16") || eq_lit(k, "int16_t") || eq_lit(k, "short") || eq_lit(k, "int32") || eq_lit(k, "int32_t") || eq_lit(k, "int") || eq_lit(k, "int64") || eq_lit(k, "int64_t") || eq_lit(k, "long") || eq_lit(k, "longlong") || eq_lit(k, "uint8") || eq_lit(k, "uint8_t") || eq_lit(k, "unsignedchar") || eq_lit(k, "uint16") || eq_lit(k, "uint16_t") || eq_lit(k, "unsignedshort") || eq_lit(k, "uint32") || eq_lit(k, "uint32_t") || eq_lit(k, "unsignedint") || eq_lit(k, "unsigned") || eq_lit(k, "uint64") || eq_lit(k, "uint64_t") || eq_lit(k, "unsignedlong") || eq_lit(k, "unsignedlonglong") || eq_lit(k, "size_t")
}

pub fn primitive_go_type(value: &str) -> (r: Option<&'static str>)
    ensures
        match go_prim(type_key(value@)) {
            Some(v) => r is Some && r->0@ == v,
            None => r is None,
        },
{
    let v = chars_of(value);
    let k = normalize_type_key_vec(v.as_slice());
    go_prim_of(k.as_slice())
}

/// The Go type of a primitive C/C++ spelling.
pub fn primitive_go_type_pub(value: &str) -> (r: Option<&'static str>)
    ensures
        match go_prim(type_key(value@)) {
            Some(v) => r is Some && r->0@ == v,
            None => r is None,
        },
{
    primitive_go_type(value)
}

pub fn primitive_cgo_cast_type(value: &str) -> (r: Option<&'static str>)
    ensures
        match cgo_prim(type_key(value@)) {
            Some(v) => r is Some && r->0@ == v,
            None => r is None,
        },
{
    let v = chars_of(value);
    let k = normalize_type_key_vec(v.as_slice());
    cgo_prim_of(k.as_slice())
}

pub fn go_type_from_c_type(c_type: &str) -> (r: &'static str)
    ensures
        Some(r@) == go_from_c(type_key(c_type@)),
{
    let v = chars_of(c_type);
    let k = normalize_type_key_vec(v.as_slice());
    match go_from_c_of(k.as_slice()) {
        Some(t) => t,
        None => "int",
    }
}

pub fn cgo_cast_type_from_c_type(c_type: &str) -> (r: &'static str)
    ensures
        Some(r@) == cgo_from_c(type_key(c_type@)),
{
    let v = chars_of(c_type);
    let k = normalize_type_key_vec(v.as_slice());
    match cgo_from_c_of(k.as_slice()) {
        Some(t) => t,
        None => "C.int",
    }
}

pub open spec fn zero_value(go_type: Seq<char>) -> Seq<char> {
    if go_type == "bool"@ {
        "false"@
    } else if go_type == "string"@ {
        "\"\""@
    } else {
        "0"@
    }
}

pub fn zero_value_for_go_type(go_type: &str) -> (r: &'static str)
    ensures
        r@ == zero_value(go_type@),
{
    let v = chars_of(go_type);
    if eq_lit(v.as_slice(), "bool") {
        "false"
    } else if eq_lit(v.as_slice(), "string") {
        "\"\""
    } else {
        "0"
    }
}

pub open spec fn or_else(a: Option<Seq<char>>, b: Option<Seq<char>>) -> Option<Seq<char>> {
    match a {
        Some(x) => Some(x),
        None => b,
    }
}

/// The Go type of a string, enum or primitive IR type.
pub open spec fn go_type_ir(t: IrTypeV) -> Option<Seq<char>> {
    match t.kind {
        IrTypeKind::String => Some("string"@),
        IrTypeKind::CString => Some("string"@),
        IrTypeKind::Enum => Some("int64"@),
        IrTypeKind::Primitive => or_else(go_prim(type_key(t.cpp_type)), go_prim(type_key(t.c_type))),
        _ => None,
    }
}

pub fn go_type_for_ir(ty: &IrType) -> (r: Option<&'static str>)
    ensures
        match go_type_ir(ty@) {
            Some(v) => r is Some && r->0@ == v,
            None => r is None,
        },
{
    match ty.kind {
        IrTypeKind::String | IrTypeKind::CString => Some("string"),
        IrTypeKind::Enum => Some("int64"),
        IrTypeKind::Primitive => match primitive_go_type(ty.cpp_type.as_str()) {
            Some(t) => Some(t),
            None => primitive_go_type(ty.c_type.as_str()),
        },
        _ => None,
    }
}

pub open spec fn go_type_ref(t: IrTypeV) -> Option<Seq<char>> {
    if t.kind != IrTypeKind::Reference {
        None
    } else {
        or_else(go_prim(type_key(t.cpp_type)), go_prim(type_key(t.c_type)))
    }
}

pub fn go_type_for_reference(ty: &IrType) -> (r: Option<&'static str>)
    ensures
        match go_type_ref(ty@) {
            Some(v) => r is Some && r->0@ == v,
            None => r is None,
        },
{
    if ty.kind != IrTypeKind::Reference {
        return None;
    }
    match primitive_go_type(ty.cpp_type.as_str()) {
        Some(t) => Some(t),
        None => primitive_go_type(ty.c_type.as_str()),
    }
}

/// `name` after its last `::`.
pub open spec fn leaf(name: Seq<char>) -> Seq<char> {
    after_last(name, "::"@)
}

pub fn leaf_cpp_name(value: &str) -> (r: String)
    ensures
        r@ == leaf(value@),
{
    let v = chars_of(value);
    let l = after_last_lit(v.as_slice(), "::");
    string_of(l.as_slice())
}

pub fn method_name(function: &IrFunction) -> (r: String)
    ensures
        r@ == leaf(function@.cpp_name),
{
    leaf_cpp_name(function.cpp_name.as_str())
}

// ---------------------------------------------------------------------------
// Overload tokens and export names
// ---------------------------------------------------------------------------

pub open spec fn char_count(s: Seq<char>, c: char) -> nat
    decreases s.len(),
{
    if s.len() == 0 {
        0
    } else {
        char_count(s.drop_last(), c) + if s.last() == c {
            1nat
        } else {
            0nat
        }
    }
}

fn count_char(s: &[char], c: char) -> (n: usize)
    ensures
        n == char_count(s@, c),
{
    let mut n: usize = 0;
    let mut i: usize = 0;
    while i < s.len()
        invariant
            i <= s.len(),
            n == char_count(s@.take(i as int), c),
            n <= i,
        decreases s.len() - i,
    {
        assert(s@.take(i + 1).drop_last() =~= s@.take(i as int));
        if s[i] == c {
            n = n + 1;
        }
        i = i + 1;
    }
    assert(s@.take(i as int) =~= s@);
    n
}

/// Pointer depth of a model pointer: the `*` in its C++ spelling, else in its C spelling
/// (at least one).
pub open spec fn model_ptr_depth(t: IrTypeV) -> nat {
    if char_count(t.cpp_type, '*') > 0 {
        char_count(t.cpp_type, '*')
    } else if char_count(t.c_type, '*') > 1 {
        char_count(t.c_type, '*')
    } else {
        1
    }
}

pub open spec fn repeat_ptr(n: nat) -> Seq<char>
    decreases n,
{
    if n == 0 {
        seq![]
    } else {
        repeat_ptr((n - 1) as nat) + "Ptr"@
    }
}

/// The Go name of a model type: its flattened base name, exported.
pub open spec fn model_go_base(t: IrTypeV) -> Seq<char> {
    go_export(remove_all(base_model(t.cpp_type), "::"@))
}

pub open spec fn strip_struct_tag(b: Seq<char>) -> Seq<char> {
    match strip_prefix(b, "struct "@) {
        Some(t) => t,
        None => b,
    }
}

/// The token one parameter type contributes to a Go overload name.
pub open spec fn overload_token(t: IrTypeV) -> Seq<char> {
    let ck = type_key(t.cpp_type);
    let cc = type_key(t.c_type);
    match t.kind {
        IrTypeKind::Callback => go_export(leaf(t.cpp_type)) + "Callback"@,
        IrTypeKind::String | IrTypeKind::CString => if ck != cc && ck.len() > 0 {
            go_export(go_token(t.cpp_type))
        } else {
            "String"@
        },
        IrTypeKind::Enum => go_export(go_token(enum_base(t.cpp_type))),
        IrTypeKind::Primitive => if ck != cc && !builtin_key(ck) {
            go_export(go_token(t.cpp_type))
        } else {
            match go_type_ir(t) {
                Some(g) => go_export(g),
                None => go_export(go_token(t.cpp_type)),
            }
        },
        IrTypeKind::ExternStructReference => go_export(go_token(strip_struct_tag(base_model(t.c_type))))
            + "Ref"@,
        IrTypeKind::ExternStructPointer => go_export(go_token(strip_struct_tag(base_model(t.c_type))))
            + "Ptr"@,
        IrTypeKind::ModelReference => model_go_base(t) + "Ref"@,
        IrTypeKind::ModelPointer => model_go_base(t) + repeat_ptr(model_ptr_depth(t)),
        IrTypeKind::ModelValue => model_go_base(t) + "Value"@,
        _ => go_export(go_token(t.cpp_type)),
    }
}

fn exported_token(v: &[char]) -> (r: String)
    ensures
        r@ == go_export(go_token(v@)),
{
    let t = sanitize_go_token(string_of(v).as_str());
    go_export_name(t.as_str())
}

fn model_base_export(ty: &IrType) -> (r: String)
    ensures
        r@ == model_go_base(ty@),
{
    let c = chars_of(ty.cpp_type.as_str());
    let b = base_model_vec(c.as_slice());
    let f = remove_all_lit(b.as_slice(), "::");
    go_export_name(string_of(f.as_slice()).as_str())
}

pub fn go_overload_token(ty: &IrType) -> (r: String)
    ensures
        r@ == overload_token(ty@),
{
    let cpp = chars_of(ty.cpp_type.as_str());
    let c = chars_of(ty.c_type.as_str());
    let ck = normalize_type_key_vec(cpp.as_slice());
    let cc = normalize_type_key_vec(c.as_slice());
    match ty.kind {
        IrTypeKind::Callback => {
            let l = leaf_cpp_name(ty.cpp_type.as_str());
            let mut out = go_export_name(l.as_str());
            push_str(&mut out, "Callback");
            out
        },
        IrTypeKind::String | IrTypeKind::CString => {
            if !seq_eq(ck.as_slice(), cc.as_slice()) && ck.len() > 0 {
                exported_token(cpp.as_slice())
            } else {
                String::from_str("String")
            }
        },
        IrTypeKind::Enum => {
            let b = enum_base_vec(cpp.as_slice());
            exported_token(b.as_slice())
        },
        IrTypeKind::Primitive => {
            if !seq_eq(ck.as_slice(), cc.as_slice()) && !is_builtin_primitive_key(ck.as_slice()) {
                exported_token(cpp.as_slice())
            } else {
                match go_type_for_ir(ty) {
                    Some(g) => go_export_name(g),
                    None => exported_token(cpp.as_slice()),
                }
            }
        },
        IrTypeKind::ExternStructReference | IrTypeKind::ExternStructPointer => {
            let b = base_model_vec(c.as_slice());
            let tag = match strip_prefix_lit(b.as_slice(), "struct ") {
                Some(t) => t,
                None => b,
            };
            let mut out = exported_token(tag.as_slice());
            if ty.kind == IrTypeKind::ExternStructReference {
                push_str(&mut out, "Ref");
            } else {
                push_str(&mut out, "Ptr");
            }
            out
        },
        IrTypeKind::ModelReference => {
            let mut out = model_base_export(ty);
            push_str(&mut out, "Ref");
            out
        },
        IrTypeKind::ModelValue => {
            let mut out = model_base_export(ty);
            push_str(&mut out, "Value");
            out
        },
        IrTypeKind::ModelPointer => {
            let mut out = model_base_export(ty);
            let cd = count_char(cpp.as_slice(), '*');
            let depth = if cd > 0 {
                cd
            } else {
                let d = count_char(c.as_slice(), '*');
                if d > 1 {
                    d
                } else {
                    1
                }
            };
            let ghost start = out@;
            let mut k: usize = 0;
            while k < depth
                invariant
                    k <= depth,
                    out@ == start + repeat_ptr(k as nat),
                decreases depth - k,
            {
                push_str(&mut out, "Ptr");
                k = k + 1;
            }
            out
        },
        _ => exported_token(cpp.as_slice()),
    }
}

/// The parameters that a Go overload name describes: all but a bound receiver.
pub open spec fn go_overload_params(f: IrFunctionV) -> Seq<IrParamV> {
    if f.method_of is Some && f.params.len() > 0 {
        f.params.skip(1)
    } else {
        f.params
    }
}

pub open spec fn tokens_of(ps: Seq<IrParamV>) -> Seq<char>
    decreases ps.len(),
{
    if ps.len() == 0 {
        seq![]
    } else {
        tokens_of(ps.drop_last()) + overload_token(ps.last().ty)
    }
}

/// The Go overload suffix: the parameters' tokens, then `Const` for a const overload;
/// without parameters, `Mut` for a non-const one.
pub open spec fn go_overload(f: IrFunctionV) -> Seq<char> {
    let s = tokens_of(go_overload_params(f));
    if s.len() == 0 {
        if f.is_const != Some(true) {
            "Mut"@
        } else {
            seq![]
        }
    } else if f.is_const == Some(true) {
        s + "Const"@
    } else {
        s
    }
}

pub fn go_overload_suffix(function: &IrFunction) -> (r: String)
    ensures
        r@ == go_overload(function@),
{
    let start: usize = if function.method_of.is_some() && function.params.len() > 0 {
        1
    } else {
        0
    };
    let ghost ps = go_overload_params(function@);
    let mut s = String::new();
    assert(ps =~= params_view(function.params@).skip(start as int));
    let mut i: usize = start;
    assert(ps.take(0) =~= Seq::<IrParamV>::empty());
    while i < function.params.len()
        invariant
            start <= i <= function.params.len(),
            ps =~= params_view(function.params@).skip(start as int),
            s@ == tokens_of(ps.take(i - start)),
        decreases function.params.len() - i,
    {
        let t = go_overload_token(&function.params[i].ty);
        assert(ps.take(i + 1 - start).drop_last() =~= ps.take(i - start));
        assert(ps.take(i + 1 - start).last() == function.params@[i as int]@);
        push_string(&mut s, &t);
        i = i + 1;
    }
    assert(ps.take(i - start) =~= ps);
    let sv = chars_of(s.as_str());
    if sv.len() == 0 {
        if function.is_const != Some(true) {
            return String::from_str("Mut");
        }
        return s;
    }
    if function.is_const == Some(true) {
        push_str(&mut s, "Const");
    }
    s
}

pub open spec fn receiver_bound_ok(f: IrFunctionV) -> bool {
    (f.method_of is Some && (f.kind == IrFunctionKind::Method || f.kind == IrFunctionKind::Destructor))
        ==> f.params.len() >= 1
}

/// Whether the function's C symbol ends in `__<raw overload suffix>` (optionally with an
/// `_<n>` occurrence number).
pub open spec fn raw_suffixed(f: IrFunctionV) -> bool {
    let raw = overload(f.kind, f.method_of is Some, f.is_const, f.params);
    match rfind(f.name, "__"@) {
        None => false,
        Some(i) => {
            let tail = f.name.skip(i + 2);
            tail == raw || match strip_prefix(tail, raw + "_"@) {
                Some(rest) => rest.len() > 0 && all_digits(rest),
                None => false,
            }
        },
    }
}

pub fn has_disambiguated_raw_overload_suffix(function: &IrFunction) -> (b: bool)
    requires
        receiver_bound_ok(function@),
    ensures
        b == raw_suffixed(function@),
{
    let raw = overload_suffix(function);
    let name = chars_of(function.name.as_str());
    proof {
        crate::text::lemma_rfind_bounds(name@, "__"@);
        reveal_strlit("__");
    }
    let i = match rfind_lit(name.as_slice(), "__") {
        None => return false,
        Some(i) => i,
    };
    assert(crate::text::matches_at(name@, "__"@, i as int));
    assert(i + 2 <= name.len());
    let tail = slice_vec(name.as_slice(), i + 2, name.len());
    assert(tail@ =~= name@.skip(i + 2));
    let rv = chars_of(raw.as_str());
    if seq_eq(tail.as_slice(), rv.as_slice()) {
        return true;
    }
    let mut pre = raw.clone();
    push_str(&mut pre, "_");
    let pv = chars_of(pre.as_str());
    match crate::text::strip_prefix_vec(tail.as_slice(), pv.as_slice()) {
        Some(rest) => rest.len() > 0 && all_digits_exec(rest.as_slice()),
        None => false,
    }
}

/// The exported Go name of a free function.
pub open spec fn facade_export(f: IrFunctionV) -> Seq<char> {
    go_export(leaf(f.cpp_name)) + if raw_suffixed(f) {
        go_overload(f)
    } else {
        seq![]
    }
}

pub fn go_facade_export_name(function: &IrFunction) -> (r: String)
    requires
        receiver_bound_ok(function@),
    ensures
        r@ == facade_export(function@),
{
    let l = leaf_cpp_name(function.cpp_name.as_str());
    let mut out = go_export_name(l.as_str());
    if has_disambiguated_raw_overload_suffix(function) {
        let s = go_overload_suffix(function);
        push_string(&mut out, &s);
    } else {
        assert(out@ + Seq::<char>::empty() =~= out@);
    }
    out
}

/// The exported Go name of a method (the same rule, on the method's own name).
pub fn go_method_export_name(function: &IrFunction) -> (r: String)
    requires
        receiver_bound_ok(function@),
    ensures
        r@ == facade_export(function@),
{
    let m = method_name(function);
    let mut out = go_export_name(m.as_str());
    if has_disambiguated_raw_overload_suffix(function) {
        let s = go_overload_suffix(function);
        push_string(&mut out, &s);
    } else {
        assert(out@ + Seq::<char>::empty() =~= out@);
    }
    out
}


// ---------------------------------------------------------------------------
// Go types of parameters and returns
// ---------------------------------------------------------------------------

/// The Go value type of a primitive or enum: a known enum by its Go name.
pub open spec fn go_value(ctx: crate::context::PipelineContextV, t: IrTypeV) -> Option<Seq<char>> {
    if t.kind == IrTypeKind::Enum {
        crate::context::enum_go_type(ctx.known_enum_types, t.cpp_type)
    } else {
        go_type_ir(t)
    }
}

pub fn go_value_type(ctx: &PipelineContext, ty: &IrType) -> (r: Option<String>)
    ensures
        opt_view(r) == go_value(ctx@, ty@),
{
    if ty.kind == IrTypeKind::Enum {
        return ctx.known_enum_go_type(ty.cpp_type.as_str());
    }
    match go_type_for_ir(ty) {
        Some(t) => Some(String::from_str(t)),
        None => None,
    }
}

/// The Go struct type of a C struct pointer or reference.
pub open spec fn extern_struct_go(t: IrTypeV) -> Option<Seq<char>> {
    match strip_prefix(base_model(t.c_type), "struct "@) {
        Some(tag) => Some("*C.struct_"@ + go_token(tag)),
        None => None,
    }
}

pub fn extern_struct_go_type(ty: &IrType) -> (r: Option<String>)
    ensures
        opt_view(r) == extern_struct_go(ty@),
{
    let c = chars_of(ty.c_type.as_str());
    let b = base_model_vec(c.as_slice());
    match strip_prefix_lit(b.as_slice(), "struct ") {
        Some(tag) => {
            let mut out = String::from_str("*C.struct_");
            let t = sanitize_go_token(string_of(tag.as_slice()).as_str());
            push_string(&mut out, &t);
            Some(out)
        },
        None => None,
    }
}

/// The C element type of a fixed array: its C spelling without the trailing `*`.
pub open spec fn array_c_elem(t: IrTypeV) -> Seq<char> {
    trim(trim_end_char(trim(t.c_type), '*'))
}

/// The Go element type of a primitive fixed array (`int32` when unknown).
pub open spec fn array_go_elem(t: IrTypeV) -> Seq<char> {
    let from_elem = match parse_array(t.cpp_type) {
        Some((e, _)) => go_prim(type_key(e)),
        None => None,
    };
    match or_else(from_elem, go_prim(type_key(array_c_elem(t)))) {
        Some(g) => g,
        None => "int32"@,
    }
}

pub fn fixed_array_go_elem_type(ty: &IrType) -> (r: &'static str)
    ensures
        r@ == array_go_elem(ty@),
{
    let cpp = chars_of(ty.cpp_type.as_str());
    let from_elem = match parse_array_vec(cpp.as_slice()) {
        Some((e, _)) => {
            let k = normalize_type_key_vec(e.as_slice());
            go_prim_of(k.as_slice())
        },
        None => None,
    };
    match from_elem {
        Some(g) => g,
        None => {
            let c = chars_of(ty.c_type.as_str());
            let t = trim_vec(c.as_slice());
            let u = trim_end_char_vec(t.as_slice(), '*');
            let e = trim_vec(u.as_slice());
            let k = normalize_type_key_vec(e.as_slice());
            match go_prim_of(k.as_slice()) {
                Some(g) => g,
                None => "int32",
            }
        },
    }
}

/// The Go name of a model type: a known projection's name, else from its handle, else its
/// flattened C++ name; `unsafe.Pointer` for `void`.
pub open spec fn model_go_name(ctx: crate::context::PipelineContextV, t: IrTypeV) -> Seq<char> {
    if base_model(t.cpp_type) == "void"@ {
        "unsafe.Pointer"@
    } else {
        match first_projection(ctx.known_model_projections, t.cpp_type, 0) {
            Some(k) => ctx.known_model_projections[k].go_name,
            None => match t.handle {
                Some(h) => match strip_suffix(h, "Handle"@) {
                    Some(b) => go_export(b),
                    None => remove_all(base_model(t.cpp_type), "::"@),
                },
                None => remove_all(base_model(t.cpp_type), "::"@),
            },
        }
    }
}

pub fn go_model_return_type(ctx: &PipelineContext, ty: &IrType) -> (r: String)
    ensures
        r@ == model_go_name(ctx@, ty@),
{
    let cpp = chars_of(ty.cpp_type.as_str());
    let base = base_model_vec(cpp.as_slice());
    if eq_lit(base.as_slice(), "void") {
        return String::from_str("unsafe.Pointer");
    }
    proof {
        crate::context::lemma_first_projection_bounds(ctx@.known_model_projections, ty@.cpp_type, 0);
    }
    match ctx.known_model_projection(ty.cpp_type.as_str()) {
        Some(p) => return p.go_name.clone(),
        None => {},
    }
    let flat = remove_all_lit(base.as_slice(), "::");
    match &ty.handle {
        Some(h) => {
            let hv = chars_of(h.as_str());
            match strip_suffix_lit(hv.as_slice(), "Handle") {
                Some(b) => go_export_name(string_of(b.as_slice()).as_str()),
                None => string_of(flat.as_slice()),
            }
        },
        None => string_of(flat.as_slice()),
    }
}

/// The Go type of a raw pointer to a primitive.
pub open spec fn go_pointer(t: IrTypeV) -> Option<Seq<char>> {
    match or_else(
        go_prim(type_key(trim(trim_end_char(t.cpp_type, '*')))),
        go_prim(type_key(trim(trim_end_char(t.c_type, '*')))),
    ) {
        Some(g) => Some("*"@ + g),
        None => None,
    }
}

fn pointer_go_type(ty: &IrType) -> (r: Option<String>)
    ensures
        opt_view(r) == go_pointer(ty@),
{
    let cpp = chars_of(ty.cpp_type.as_str());
    let a = trim_end_char_vec(cpp.as_slice(), '*');
    let b = trim_vec(a.as_slice());
    let kb = normalize_type_key_vec(b.as_slice());
    let g = match go_prim_of(kb.as_slice()) {
        Some(g) => Some(g),
        None => {
            let c = chars_of(ty.c_type.as_str());
            let d = trim_end_char_vec(c.as_slice(), '*');
            let e = trim_vec(d.as_slice());
            let ke = normalize_type_key_vec(e.as_slice());
            go_prim_of(ke.as_slice())
        },
    };
    match g {
        Some(g) => {
            let mut out = String::from_str("*");
            push_str(&mut out, g);
            Some(out)
        },
        None => None,
    }
}

pub open spec fn go_pointer_return(t: IrTypeV) -> Option<Seq<char>> {
    if t.kind != IrTypeKind::Pointer {
        None
    } else {
        go_pointer(t)
    }
}

pub fn go_pointer_return_type(ty: &IrType) -> (r: Option<String>)
    ensures
        opt_view(r) == go_pointer_return(ty@),
{
    if ty.kind != IrTypeKind::Pointer {
        return None;
    }
    pointer_go_type(ty)
}

/// The Go type of a facade parameter, when the facade supports it.
pub open spec fn go_param(ctx: crate::context::PipelineContextV, t: IrTypeV) -> Option<Seq<char>> {
    match t.kind {
        IrTypeKind::String | IrTypeKind::CString => Some("string"@),
        IrTypeKind::FixedByteArray => Some("[]byte"@),
        IrTypeKind::FixedArray => Some("[]"@ + array_go_elem(t)),
        IrTypeKind::FixedModelArray => Some("[]*"@ + model_go_name(ctx, t)),
        IrTypeKind::Primitive | IrTypeKind::Enum => go_value(ctx, t),
        IrTypeKind::Reference => match go_type_ref(t) {
            Some(g) => Some("*"@ + g),
            None => None,
        },
        IrTypeKind::Pointer => go_pointer(t),
        IrTypeKind::ExternStructPointer | IrTypeKind::ExternStructReference => extern_struct_go(t),
        IrTypeKind::Callback => Some(leaf(t.cpp_type)),
        IrTypeKind::ModelReference | IrTypeKind::ModelPointer | IrTypeKind::ModelValue => {
            if base_model(t.cpp_type) == "void"@ {
                Some("unsafe.Pointer"@)
            } else {
                match first_projection(ctx.known_model_projections, t.cpp_type, 0) {
                    Some(k) => Some("*"@ + ctx.known_model_projections[k].go_name),
                    None => match t.handle {
                        Some(h) => match strip_suffix(h, "Handle"@) {
                            Some(b) => Some("*"@ + go_export(b)),
                            None => None,
                        },
                        None => None,
                    },
                }
            }
        },
        _ => None,
    }
}

fn prefixed(prefix: &str, s: &String) -> (r: String)
    ensures
        r@ == prefix@ + s@,
{
    let mut out = String::from_str(prefix);
    push_string(&mut out, s);
    out
}

pub fn go_param_type(ctx: &PipelineContext, ty: &IrType) -> (r: Option<String>)
    ensures
        opt_view(r) == go_param(ctx@, ty@),
{
    match ty.kind {
        IrTypeKind::String | IrTypeKind::CString => Some(String::from_str("string")),
        IrTypeKind::FixedByteArray => Some(String::from_str("[]byte")),
        IrTypeKind::FixedArray => {
            let mut out = String::from_str("[]");
            push_str(&mut out, fixed_array_go_elem_type(ty));
            Some(out)
        },
        IrTypeKind::FixedModelArray => {
            let g = go_model_return_type(ctx, ty);
            Some(prefixed("[]*", &g))
        },
        IrTypeKind::Primitive | IrTypeKind::Enum => go_value_type(ctx, ty),
        IrTypeKind::Reference => match go_type_for_reference(ty) {
            Some(g) => {
                let mut out = String::from_str("*");
                push_str(&mut out, g);
                Some(out)
            },
            None => None,
        },
        IrTypeKind::Pointer => pointer_go_type(ty),
        IrTypeKind::ExternStructPointer | IrTypeKind::ExternStructReference => extern_struct_go_type(ty),
        IrTypeKind::Callback => Some(leaf_cpp_name(ty.cpp_type.as_str())),
        IrTypeKind::ModelReference | IrTypeKind::ModelPointer | IrTypeKind::ModelValue => {
            let cpp = chars_of(ty.cpp_type.as_str());
            let base = base_model_vec(cpp.as_slice());
            if eq_lit(base.as_slice(), "void") {
                return Some(String::from_str("unsafe.Pointer"));
            }
            proof {
                crate::context::lemma_first_projection_bounds(ctx@.known_model_projections, ty@.cpp_type, 0);
            }
            match ctx.known_model_projection(ty.cpp_type.as_str()) {
                Some(p) => return Some(prefixed("*", &p.go_name)),
                None => {},
            }
            match &ty.handle {
                Some(h) => {
                    let hv = chars_of(h.as_str());
                    match strip_suffix_lit(hv.as_slice(), "Handle") {
                        Some(b) => {
                            let e = go_export_name(string_of(b.as_slice()).as_str());
                            Some(prefixed("*", &e))
                        },
                        None => None,
                    }
                },
                None => None,
            }
        },
        _ => None,
    }
}

pub open spec fn is_model_return(k: IrTypeKind) -> bool {
    k == IrTypeKind::ModelReference || k == IrTypeKind::ModelPointer || k == IrTypeKind::ModelValue
}

/// Whether the facade can return a value of type `t`.
pub open spec fn go_return_ok(t: IrTypeV) -> bool {
    t.kind == IrTypeKind::Void || t.kind == IrTypeKind::String || t.kind == IrTypeKind::CString
        || t.kind == IrTypeKind::FixedByteArray || t.kind == IrTypeKind::FixedArray || t.kind
        == IrTypeKind::FixedModelArray || t.kind == IrTypeKind::Enum || (t.kind
        == IrTypeKind::Primitive && go_type_ir(t) is Some) || (t.kind == IrTypeKind::Pointer
        && go_pointer_return(t) is Some) || is_model_return(t.kind)
}

pub fn go_return_supported(_ctx: &PipelineContext, ty: &IrType) -> (b: bool)
    ensures
        b == go_return_ok(ty@),
{
    let k = ty.kind;
    k == IrTypeKind::Void || k == IrTypeKind::String || k == IrTypeKind::CString || k
        == IrTypeKind::FixedByteArray || k == IrTypeKind::FixedArray || k
        == IrTypeKind::FixedModelArray || k == IrTypeKind::Enum || (k == IrTypeKind::Primitive
        && go_type_for_ir(ty).is_some()) || (k == IrTypeKind::Pointer
        && go_pointer_return_type(ty).is_some()) || k == IrTypeKind::ModelReference || k
        == IrTypeKind::ModelPointer || k == IrTypeKind::ModelValue
}

/// Whether every parameter from `from` on has a Go type.
pub open spec fn params_supported(ctx: crate::context::PipelineContextV, ps: Seq<IrParamV>, from: int) -> bool {
    forall|i: int| from <= i < ps.len() ==> #[trigger] go_param(ctx, ps[i].ty) is Some
}

pub(crate) fn params_supported_from(ctx: &PipelineContext, function: &IrFunction, from: usize) -> (b: bool)
    ensures
        b == params_supported(ctx@, function@.params, from as int),
{
    let mut i: usize = from;
    while i < function.params.len()
        invariant
            from <= i,
            forall|k: int| from <= k < i ==> #[trigger] go_param(ctx@, function@.params[k].ty) is Some,
        decreases function.params.len() - i,
    {
        assert(function@.params[i as int] == function.params@[i as int]@);
        if go_param_type(ctx, &function.params[i].ty).is_none() {
            assert(go_param(ctx@, function@.params[i as int].ty) is None);
            assert(!params_supported(ctx@, function@.params, from as int));
            return false;
        }
        i = i + 1;
    }
    true
}

/// A free function is supported when its return and all its parameters are.
pub fn free_function_supported(ctx: &PipelineContext, function: &IrFunction) -> (b: bool)
    ensures
        b == (go_return_ok(function@.returns) && params_supported(ctx@, function@.params, 0)),
{
    go_return_supported(ctx, &function.returns) && params_supported_from(ctx, function, 0)
}

/// Whether every parameter has a Go type.
pub fn free_params_supported(ctx: &PipelineContext, function: &IrFunction) -> (b: bool)
    ensures
        b == params_supported(ctx@, function@.params, 0),
{
    params_supported_from(ctx, function, 0)
}

/// A method is supported when its return and all parameters after the receiver are.
pub fn method_supported(ctx: &PipelineContext, function: &IrFunction) -> (b: bool)
    ensures
        b == (go_return_ok(function@.returns) && params_supported(ctx@, function@.params, 1)),
{
    go_return_supported(ctx, &function.returns) && params_supported_from(ctx, function, 1)
}

} // verus!
