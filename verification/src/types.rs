//! Classification of C++ type spellings into the IR type model.
use vstd::prelude::*;

use crate::ir::{contains_str, records_view, strs, IrRecord, IrRecordV, IrType, IrTypeV};
use crate::kind::{is_model_kind, IrTypeKind, RecordKind};
use crate::text::{
    after_last, all_digits, all_digits_exec, chars_of, char_is_ws, contains_char, contains_lit,
    ends_with, ends_with_exec, ends_with_lit, eq_lit, is_ws, lemma_rfind_bounds, matches_at,
    parse_usize, parse_usize_exec, remove_all, remove_all_lit, rfind, rfind_exec, slice_vec,
    starts_with, starts_with_lit, string_of, strip_prefix, strip_prefix_lit, strip_suffix,
    strip_suffix_lit, trim, push_str, push_chars, seq_eq, after_last_lit, decimal, decimal_vec, trim_end, trim_end_char, trim_end_char_vec, trim_start,
    trim_start_matches, trim_start_matches_lit, trim_vec,
};

verus! {

// ---------------------------------------------------------------------------
// Base names
// ---------------------------------------------------------------------------

/// A type spelling with surrounding whitespace, leading `const ` and trailing `&`/`*` removed.
pub open spec fn base_model(v: Seq<char>) -> Seq<char> {
    trim(trim_end_char(trim_end_char(trim_start_matches(trim(v), "const "@), '&'), '*'))
}

/// `base_model` without a leading `enum ` tag.
pub open spec fn enum_base(v: Seq<char>) -> Seq<char> {
    let b = base_model(v);
    match strip_prefix(b, "enum "@) {
        Some(t) => trim(t),
        None => trim(b),
    }
}

/// `base_model` without a leading `struct ` tag.
pub open spec fn record_base(v: Seq<char>) -> Seq<char> {
    let b = base_model(v);
    match strip_prefix(b, "struct "@) {
        Some(t) => trim(t),
        None => trim(b),
    }
}

pub fn base_model_vec(v: &[char]) -> (r: Vec<char>)
    ensures
        r@ == base_model(v@),
{
    let t = trim_vec(v);
    let a = trim_start_matches_lit(t.as_slice(), "const ");
    let b = trim_end_char_vec(a.as_slice(), '&');
    let c = trim_end_char_vec(b.as_slice(), '*');
    trim_vec(c.as_slice())
}

/// `value.trim().trim_start_matches("const ").trim_end_matches('&').trim_end_matches('*').trim()`
pub fn base_model_cpp_type(value: &str) -> (r: String)
    ensures
        r@ == base_model(value@),
{
    let v = chars_of(value);
    let b = base_model_vec(v.as_slice());
    string_of(b.as_slice())
}

fn strip_tag_vec(b: Vec<char>, tag: &str) -> (r: Vec<char>)
    ensures
        r@ == (match strip_prefix(b@, tag@) {
            Some(t) => trim(t),
            None => trim(b@),
        }),
{
    match strip_prefix_lit(b.as_slice(), tag) {
        Some(t) => trim_vec(t.as_slice()),
        None => trim_vec(b.as_slice()),
    }
}

pub fn enum_base_vec(v: &[char]) -> (r: Vec<char>)
    ensures
        r@ == enum_base(v@),
{
    let b = base_model_vec(v);
    strip_tag_vec(b, "enum ")
}

pub fn record_base_vec(v: &[char]) -> (r: Vec<char>)
    ensures
        r@ == record_base(v@),
{
    let b = base_model_vec(v);
    strip_tag_vec(b, "struct ")
}

pub fn enum_base_cpp_type(value: &str) -> (r: String)
    ensures
        r@ == enum_base(value@),
{
    let v = chars_of(value);
    let b = enum_base_vec(v.as_slice());
    string_of(b.as_slice())
}

// ---------------------------------------------------------------------------
// Arrays
// ---------------------------------------------------------------------------

/// `value` with surrounding whitespace and a leading `const ` removed.
pub open spec fn unconst(v: Seq<char>) -> Seq<char> {
    trim(trim_start_matches(trim(v), "const "@))
}

fn unconst_vec(v: &[char]) -> (r: Vec<char>)
    ensures
        r@ == unconst(v@),
{
    let t = trim_vec(v);
    let a = trim_start_matches_lit(t.as_slice(), "const ");
    trim_vec(a.as_slice())
}

/// `T[N]` split into the element spelling and a positive length.
pub open spec fn parse_array(value: Seq<char>) -> Option<(Seq<char>, nat)> {
    let t = unconst(value);
    match rfind(t, seq!['[']) {
        None => None,
        Some(b) => {
            let elem = trim(t.take(b));
            match strip_suffix(t.skip(b + 1), "]"@) {
                None => None,
                Some(rest) => match parse_usize(trim(rest)) {
                    None => None,
                    Some(n) => if elem.len() == 0 || n == 0 {
                        None
                    } else {
                        Some((elem, n))
                    },
                },
            }
        },
    }
}

pub fn parse_array_vec(value: &[char]) -> (r: Option<(Vec<char>, usize)>)
    ensures
        match parse_array(value@) {
            Some((e, n)) => match r {
                Some((ev, nv)) => ev@ == e && nv == n,
                None => false,
            },
            None => r is None,
        },
{
    let t = unconst_vec(value);
    let open: Vec<char> = vec!['['];
    assert(open@ =~= seq!['[']);
    proof {
        lemma_rfind_bounds(t@, open@);
    }
    let b = match rfind_exec(t.as_slice(), open.as_slice()) {
        None => return None,
        Some(b) => b,
    };
    assert(matches_at(t@, seq!['['], b as int));
    assert(b < t.len());
    let head = slice_vec(t.as_slice(), 0, b);
    assert(head@ =~= t@.take(b as int));
    let elem = trim_vec(head.as_slice());
    let tail = slice_vec(t.as_slice(), b + 1, t.len());
    assert(tail@ =~= t@.skip(b + 1));
    let rest = match strip_suffix_lit(tail.as_slice(), "]") {
        None => return None,
        Some(r) => r,
    };
    let rest_t = trim_vec(rest.as_slice());
    let n = match parse_usize_exec(rest_t.as_slice()) {
        None => return None,
        Some(n) => n,
    };
    if elem.len() == 0 || n == 0 {
        return None;
    }
    Some((elem, n))
}

/// Extracts the array length from `cpp_type` for fixed arrays.
pub fn fixed_array_length(cpp_type: &str) -> (r: Option<usize>)
    ensures
        match parse_array(cpp_type@) {
            Some((_, n)) => r == Some(n as usize),
            None => r is None,
        },
{
    let v = chars_of(cpp_type);
    match parse_array_vec(v.as_slice()) {
        Some((_, n)) => Some(n),
        None => None,
    }
}

/// Extracts the element type string from `cpp_type` for fixed arrays.
pub fn fixed_array_elem_type(cpp_type: &str) -> (r: Option<String>)
    ensures
        match parse_array(cpp_type@) {
            Some((e, _)) => r is Some && r->0@ == e,
            None => r is None,
        },
{
    let v = chars_of(cpp_type);
    match parse_array_vec(v.as_slice()) {
        Some((e, _)) => Some(string_of(e.as_slice())),
        None => None,
    }
}

/// `char[N]` (possibly behind `const `) with a non-empty all-digit `N`.
pub open spec fn is_char_array(v: Seq<char>) -> bool
    decreases v.len(),
{
    let t = trim(v);
    if starts_with(t, "const "@) && t.len() >= 6 {
        proof {
            lemma_trim_len(v);
        }
        is_char_array(t.skip(6))
    } else {
        match strip_prefix(t, "char["@) {
            None => false,
            Some(p) => match strip_suffix(p, "]"@) {
                None => false,
                Some(len) => len.len() > 0 && all_digits(len),
            },
        }
    }
}

/// `unsigned char[N]` (possibly behind `const `) with a non-empty all-digit `N`.
pub open spec fn is_unsigned_char_array(v: Seq<char>) -> bool
    decreases v.len(),
{
    let t = trim(v);
    if starts_with(t, "const "@) && t.len() >= 6 {
        proof {
            lemma_trim_len(v);
        }
        is_unsigned_char_array(t.skip(6))
    } else {
        match strip_prefix(t, "unsigned char["@) {
            None => false,
            Some(p) => match strip_suffix(p, "]"@) {
                None => false,
                Some(len) => len.len() > 0 && all_digits(len),
            },
        }
    }
}

proof fn lemma_const_len()
    ensures
        "const "@.len() == 6,
{
    reveal_strlit("const ");
}

pub proof fn lemma_trim_start_len(s: Seq<char>)
    ensures
        trim_start(s).len() <= s.len(),
    decreases s.len(),
{
    if s.len() > 0 {
        lemma_trim_start_len(s.drop_first());
    }
}

pub proof fn lemma_trim_end_len(s: Seq<char>)
    ensures
        trim_end(s).len() <= s.len(),
    decreases s.len(),
{
    if s.len() > 0 {
        lemma_trim_end_len(s.drop_last());
    }
}

pub proof fn lemma_trim_len(s: Seq<char>)
    ensures
        trim(s).len() <= s.len(),
{
    lemma_trim_start_len(s);
    lemma_trim_end_len(trim_start(s));
}

fn array_with_prefix(v: &[char], head: &str) -> (r: bool)
    ensures
        r == (match strip_prefix(v@, head@) {
            None => false,
            Some(p) => match strip_suffix(p, "]"@) {
                None => false,
                Some(len) => len.len() > 0 && all_digits(len),
            },
        }),
{
    let p = match strip_prefix_lit(v, head) {
        None => return false,
        Some(p) => p,
    };
    let len = match strip_suffix_lit(p.as_slice(), "]") {
        None => return false,
        Some(l) => l,
    };
    len.len() > 0 && all_digits_exec(len.as_slice())
}

pub fn is_char_array_type(value: &[char]) -> (b: bool)
    ensures
        b == is_char_array(value@),
    decreases value@.len(),
{
    let t = trim_vec(value);
    proof {
        lemma_const_len();
        lemma_trim_len(value@);
    }
    if starts_with_lit(t.as_slice(), "const ") && t.len() >= 6 {
        let inner = slice_vec(t.as_slice(), 6, t.len());
        assert(inner@ =~= t@.skip(6));
        return is_char_array_type(inner.as_slice());
    }
    array_with_prefix(t.as_slice(), "char[")
}

pub fn is_unsigned_char_array_type(value: &[char]) -> (b: bool)
    ensures
        b == is_unsigned_char_array(value@),
    decreases value@.len(),
{
    let t = trim_vec(value);
    proof {
        lemma_const_len();
        lemma_trim_len(value@);
    }
    if starts_with_lit(t.as_slice(), "const ") && t.len() >= 6 {
        let inner = slice_vec(t.as_slice(), 6, t.len());
        assert(inner@ =~= t@.skip(6));
        return is_unsigned_char_array_type(inner.as_slice());
    }
    array_with_prefix(t.as_slice(), "unsigned char[")
}

/// Length of `unsigned char[N]`.
pub open spec fn byte_array_len(v: Seq<char>) -> Option<nat> {
    match strip_prefix(unconst(v), "unsigned char["@) {
        None => None,
        Some(p) => match strip_suffix(p, "]"@) {
            None => None,
            Some(len) => parse_usize(len),
        },
    }
}

pub fn byte_array_length(cpp_type: &str) -> (r: Option<usize>)
    ensures
        match byte_array_len(cpp_type@) {
            Some(n) => r == Some(n as usize),
            None => r is None,
        },
{
    let v = chars_of(cpp_type);
    let t = unconst_vec(v.as_slice());
    let p = match strip_prefix_lit(t.as_slice(), "unsigned char[") {
        None => return None,
        Some(p) => p,
    };
    let len = match strip_suffix_lit(p.as_slice(), "]") {
        None => return None,
        Some(l) => l,
    };
    parse_usize_exec(len.as_slice())
}

// ---------------------------------------------------------------------------
// Shapes and primitives
// ---------------------------------------------------------------------------

#[derive(Debug, Clone, Copy, PartialEq, Eq, Structural)]
pub enum TypeShape {
    Pointer,
    Reference,
    Value,
}

pub open spec fn shape_of(v: Seq<char>) -> TypeShape {
    let t = unconst(v);
    if ends_with(t, seq!['*']) {
        TypeShape::Pointer
    } else if ends_with(t, seq!['&']) {
        TypeShape::Reference
    } else {
        TypeShape::Value
    }
}

pub fn ends_with_char(s: &[char], c: char) -> (b: bool)
    ensures
        b == ends_with(s@, seq![c]),
{
    let p: Vec<char> = vec![c];
    assert(p@ =~= seq![c]);
    ends_with_exec(s, p.as_slice())
}

pub fn raw_type_shape(cpp_type: &[char]) -> (r: TypeShape)
    ensures
        r == shape_of(cpp_type@),
{
    let t = unconst_vec(cpp_type);
    if ends_with_char(t.as_slice(), '*') {
        TypeShape::Pointer
    } else if ends_with_char(t.as_slice(), '&') {
        TypeShape::Reference
    } else {
        TypeShape::Value
    }
}

pub open spec fn is_primitive_name(n: Seq<char>) -> bool {
    n == "bool"@ || n == "int"@ || n == "int8_t"@ || n == "int8"@ || n == "int16_t"@ || n
        == "int16"@ || n == "int32_t"@ || n == "int32"@ || n == "int64_t"@ || n == "int64"@ || n
        == "short"@ || n == "long"@ || n == "long long"@ || n == "float"@ || n == "double"@ || n
        == "size_t"@ || n == "uint8_t"@ || n == "uint8"@ || n == "uint16_t"@ || n == "uint16"@
        || n == "uint32_t"@ || n == "uint32"@ || n == "uint64_t"@ || n == "uint64"@ || n
        == "char"@ || n == "const char"@ || n == "unsigned"@ || n == "unsigned int"@ || n
        == "unsigned short"@ || n == "unsigned long"@ || n == "unsigned long long"@ || n
        == "signed char"@ || n == "unsigned char"@
}

pub fn is_supported_primitive(n: &[char]) -> (b: bool)
    ensures
        b == is_primitive_name(n@),
{
    eq_lit(n, "bool") || eq_lit(n, "int") || eq_lit(n, "int8_t") || eq_lit(n, "int8") || eq_lit(
        n,
        "int16_t",
    ) || eq_lit(n, "int16") || eq_lit(n, "int32_t") || eq_lit(n, "int32") || eq_lit(n, "int64_t")
        || eq_lit(n, "int64") || eq_lit(n, "short") || eq_lit(n, "long") || eq_lit(n, "long long")
        || eq_lit(n, "float") || eq_lit(n, "double") || eq_lit(n, "size_t") || eq_lit(n, "uint8_t")
        || eq_lit(n, "uint8") || eq_lit(n, "uint16_t") || eq_lit(n, "uint16") || eq_lit(
        n,
        "uint32_t",
    ) || eq_lit(n, "uint32") || eq_lit(n, "uint64_t") || eq_lit(n, "uint64") || eq_lit(n, "char")
        || eq_lit(n, "const char") || eq_lit(n, "unsigned") || eq_lit(n, "unsigned int") || eq_lit(
        n,
        "unsigned short",
    ) || eq_lit(n, "unsigned long") || eq_lit(n, "unsigned long long") || eq_lit(
        n,
        "signed char",
    ) || eq_lit(n, "unsigned char")
}

/// Number of `*` at the end of `s`, looking through whitespace.
pub open spec fn pointer_depth(s: Seq<char>) -> nat
    decreases s.len(),
{
    if s.len() == 0 {
        0
    } else if s.last() == '*' {
        1 + pointer_depth(s.drop_last())
    } else if is_ws(s.last()) {
        pointer_depth(s.drop_last())
    } else {
        0
    }
}

pub fn trailing_pointer_depth(value: &[char]) -> (d: usize)
    ensures
        d == pointer_depth(trim(value@)),
{
    let t = trim_vec(value);
    let mut j: usize = t.len();
    let mut d: usize = 0;
    assert(t@.take(j as int) =~= t@);
    while j > 0
        invariant
            j <= t.len(),
            t@ == trim(value@),
            d <= t.len() - j,
            pointer_depth(t@) == d + pointer_depth(t@.take(j as int)),
        decreases j,
    {
        let c = t[j - 1];
        assert(t@.take(j as int).drop_last() =~= t@.take(j - 1));
        if c == '*' {
            d = d + 1;
        } else if char_is_ws(c) {
        } else {
            assert(t@.take(j as int).last() == c);
            assert(pointer_depth(t@.take(j as int)) == 0);
            return d;
        }
        j = j - 1;
    }
    d
}

pub open spec fn is_double_pointer(v: Seq<char>) -> bool {
    let t = trim(v);
    !(t.len() == 0 || parse_array(t) is Some) && pointer_depth(trim(t)) >= 2
}

pub fn is_unsupported_double_pointer_type(v: &[char]) -> (b: bool)
    ensures
        b == is_double_pointer(v@),
{
    let t = trim_vec(v);
    if t.len() == 0 || parse_array_vec(t.as_slice()).is_some() {
        return false;
    }
    trailing_pointer_depth(t.as_slice()) >= 2
}

pub open spec fn extern_struct_base(v: Seq<char>) -> Option<Seq<char>> {
    let b = base_model(v);
    match strip_prefix(b, "struct "@) {
        Some(tag) => if trim(tag).len() > 0 {
            Some("struct "@ + trim(tag))
        } else {
            None
        },
        None => if b == "timeval"@ {
            Some("struct timeval"@)
        } else {
            None
        },
    }
}

pub fn extern_c_struct_base_type(v: &[char]) -> (r: Option<Vec<char>>)
    ensures
        match extern_struct_base(v@) {
            Some(s) => r is Some && r->0@ == s,
            None => r is None,
        },
{
    let b = base_model_vec(v);
    match strip_prefix_lit(b.as_slice(), "struct ") {
        Some(tag) => {
            let t = trim_vec(tag.as_slice());
            if t.len() > 0 {
                let mut out = chars_of("struct ");
                let mut i: usize = 0;
                let ghost start = out@;
                while i < t.len()
                    invariant
                        i <= t.len(),
                        out@ == start + t@.take(i as int),
                    decreases t.len() - i,
                {
                    out.push(t[i]);
                    assert(t@.take(i + 1) =~= t@.take(i as int).push(t@[i as int]));
                    i = i + 1;
                }
                assert(t@.take(i as int) =~= t@);
                Some(out)
            } else {
                None
            }
        },
        None => {
            if eq_lit(b.as_slice(), "timeval") {
                Some(chars_of("struct timeval"))
            } else {
                None
            }
        },
    }
}

/// The opaque handle name for a model type spelling, when the spelling denotes one.
pub open spec fn model_handle(v: Seq<char>) -> Option<Seq<char>> {
    let b = base_model(v);
    if b.len() == 0 || b == "void"@ || b.contains('<') || starts_with(b, "std::"@) || starts_with(
        b,
        "struct "@,
    ) || b.contains('[') || b.contains(']') || b.contains('(') || b.contains(')')
        || is_primitive_name(b) {
        None
    } else {
        Some(remove_all(b, "::"@) + "Handle"@)
    }
}

pub fn append_lit(v: &mut Vec<char>, lit: &str)
    ensures
        final(v)@ == old(v)@ + lit@,
{
    let p = chars_of(lit);
    append_chars(v, p.as_slice());
}

pub fn append_chars(v: &mut Vec<char>, p: &[char])
    ensures
        final(v)@ == old(v)@ + p@,
{
    let ghost start = v@;
    let mut i: usize = 0;
    while i < p.len()
        invariant
            i <= p.len(),
            v@ == start + p@.take(i as int),
        decreases p.len() - i,
    {
        v.push(p[i]);
        assert(p@.take(i + 1) =~= p@.take(i as int).push(p@[i as int]));
        i = i + 1;
    }
    assert(p@.take(i as int) =~= p@);
}

pub fn model_handle_vec(v: &[char]) -> (r: Option<Vec<char>>)
    ensures
        match model_handle(v@) {
            Some(s) => r is Some && r->0@ == s,
            None => r is None,
        },
{
    let b = base_model_vec(v);
    let bs = b.as_slice();
    if b.len() == 0 || eq_lit(bs, "void") || contains_char(bs, '<') || starts_with_lit(bs, "std::")
        || starts_with_lit(bs, "struct ") || contains_char(bs, '[') || contains_char(bs, ']')
        || contains_char(bs, '(') || contains_char(bs, ')') || is_supported_primitive(bs) {
        return None;
    }
    let mut out = remove_all_lit(bs, "::");
    append_lit(&mut out, "Handle");
    Some(out)
}

pub fn raw_safe_model_handle_name(cpp_type: &str) -> (r: Option<String>)
    ensures
        match model_handle(cpp_type@) {
            Some(s) => r is Some && r->0@ == s,
            None => r is None,
        },
{
    let v = chars_of(cpp_type);
    match model_handle_vec(v.as_slice()) {
        Some(h) => Some(string_of(h.as_slice())),
        None => None,
    }
}

pub open spec fn canonical_prim(n: Seq<char>) -> Seq<char> {
    if n == "uint8"@ {
        "uint8_t"@
    } else if n == "uint16"@ {
        "uint16_t"@
    } else if n == "uint32"@ {
        "uint32_t"@
    } else if n == "uint64"@ {
        "uint64_t"@
    } else if n == "int8"@ {
        "int8_t"@
    } else if n == "int16"@ {
        "int16_t"@
    } else if n == "int32"@ {
        "int32_t"@
    } else if n == "int64"@ {
        "int64_t"@
    } else {
        n
    }
}

pub fn canonical_primitive_c_type(n: &[char]) -> (r: Vec<char>)
    ensures
        r@ == canonical_prim(n@),
{
    if eq_lit(n, "uint8") {
        chars_of("uint8_t")
    } else if eq_lit(n, "uint16") {
        chars_of("uint16_t")
    } else if eq_lit(n, "uint32") {
        chars_of("uint32_t")
    } else if eq_lit(n, "uint64") {
        chars_of("uint64_t")
    } else if eq_lit(n, "int8") {
        chars_of("int8_t")
    } else if eq_lit(n, "int16") {
        chars_of("int16_t")
    } else if eq_lit(n, "int32") {
        chars_of("int32_t")
    } else if eq_lit(n, "int64") {
        chars_of("int64_t")
    } else {
        slice_vec(n, 0, n.len())
    }
}

pub open spec fn const_qualified(v: Seq<char>) -> bool {
    let b = trim(trim_end_char(trim_end_char(trim(v), '&'), '*'));
    starts_with(b, "const "@) || ends_with(b, " const"@)
}

pub fn is_const_qualified_model_type(v: &[char]) -> (r: bool)
    ensures
        r == const_qualified(v@),
{
    let t = trim_vec(v);
    let a = trim_end_char_vec(t.as_slice(), '&');
    let b0 = trim_end_char_vec(a.as_slice(), '*');
    let b = trim_vec(b0.as_slice());
    starts_with_lit(b.as_slice(), "const ") || ends_with_lit(b.as_slice(), " const")
}

// ---------------------------------------------------------------------------
// Type normalization
// ---------------------------------------------------------------------------

pub open spec fn tv(
    kind: IrTypeKind,
    cpp: Seq<char>,
    c: Seq<char>,
    h: Option<Seq<char>>,
) -> IrTypeV {
    IrTypeV { kind, cpp_type: cpp, c_type: c, handle: h }
}

/// `void` or a primitive whose C spelling is its C++ spelling.
pub open spec fn prim_tv(name: Seq<char>) -> IrTypeV {
    tv(
        if name == "void"@ {
            IrTypeKind::Void
        } else {
            IrTypeKind::Primitive
        },
        name,
        name,
        None,
    )
}

pub fn mk_type(kind: IrTypeKind, cpp: &[char], c: &[char], h: Option<Vec<char>>) -> (r: IrType)
    ensures
        r@ == tv(
            kind,
            cpp@,
            c@,
            match h {
                Some(x) => Some(x@),
                None => None,
            },
        ),
{
    IrType {
        kind,
        cpp_type: string_of(cpp),
        c_type: string_of(c),
        handle: match h {
            Some(x) => Some(string_of(x.as_slice())),
            None => None,
        },
    }
}

pub fn primitive_type_vec(name: &[char]) -> (r: IrType)
    ensures
        r@ == prim_tv(name@),
{
    let kind = if eq_lit(name, "void") {
        IrTypeKind::Void
    } else {
        IrTypeKind::Primitive
    };
    mk_type(kind, name, name, None)
}

pub fn primitive_type(name: &str) -> (r: IrType)
    ensures
        r@ == prim_tv(name@),
{
    let v = chars_of(name);
    primitive_type_vec(v.as_slice())
}

pub open spec fn is_plain_primitive_literal(t: Seq<char>) -> bool {
    t == "bool"@ || t == "int"@ || t == "short"@ || t == "long"@ || t == "long long"@ || t
        == "float"@ || t == "double"@ || t == "size_t"@ || t == "char"@ || t == "const char"@ || t
        == "unsigned"@ || t == "unsigned int"@ || t == "unsigned short"@ || t == "unsigned long"@
        || t == "unsigned long long"@ || t == "signed char"@ || t == "unsigned char"@
}

pub open spec fn is_alias_literal(t: Seq<char>) -> bool {
    t == "uint8"@ || t == "uint16"@ || t == "uint32"@ || t == "uint64"@ || t == "int8"@ || t
        == "int16"@ || t == "int32"@ || t == "int64"@
}

/// The fixed spellings that classify directly.
pub open spec fn norm_literal(t: Seq<char>) -> Option<IrTypeV> {
    if t == "void"@ || is_plain_primitive_literal(t) {
        Some(prim_tv(t))
    } else if is_alias_literal(t) {
        Some(tv(IrTypeKind::Primitive, t, canonical_prim(t), None))
    } else if t == "const char *"@ || t == "const char*"@ || t == "NPCSTR"@ || t == "NPSTRC"@ || t
        == "NPCSTRC"@ {
        Some(tv(IrTypeKind::CString, t, "const char*"@, None))
    } else if t == "char *"@ || t == "char*"@ || t == "NPSTR"@ {
        Some(tv(IrTypeKind::CString, t, "char*"@, None))
    } else if t == "NPVOID"@ || t == "void *"@ || t == "void*"@ {
        Some(tv(IrTypeKind::ModelPointer, "void"@, "NPVOIDHandle*"@, Some("NPVOIDHandle"@)))
    } else if t == "std::string"@ || t == "const std::string &"@ || t == "const std::string&"@ || t
        == "std::string_view"@ {
        Some(tv(IrTypeKind::String, t, "char*"@, None))
    } else {
        None
    }
}

pub open spec fn model_c_type(t: Seq<char>, h: Seq<char>) -> Seq<char> {
    if const_qualified(t) {
        "const "@ + h + "*"@
    } else {
        h + "*"@
    }
}

/// Pointer, reference and by-value spellings classified by their trailing symbol.
pub open spec fn norm_suffix(t: Seq<char>) -> Option<IrTypeV> {
    let bp = trim(trim_end_char(t, '*'));
    let br = trim(trim_end_char(t, '&'));
    let is_ptr = ends_with(t, seq!['*']);
    let is_ref = ends_with(t, seq!['&']);
    if is_ptr && is_primitive_name(bp) {
        Some(tv(IrTypeKind::Pointer, t, canonical_prim(bp) + "*"@, None))
    } else if is_ref && is_primitive_name(br) {
        Some(tv(IrTypeKind::Reference, t, canonical_prim(br) + "*"@, None))
    } else if is_ref && extern_struct_base(t) is Some {
        Some(tv(IrTypeKind::ExternStructReference, t, extern_struct_base(t)->0 + "*"@, None))
    } else if is_ptr && extern_struct_base(t) is Some {
        Some(tv(IrTypeKind::ExternStructPointer, t, extern_struct_base(t)->0 + "*"@, None))
    } else if is_ref && model_handle(t) is Some {
        let h = model_handle(t)->0;
        Some(tv(IrTypeKind::ModelReference, t, model_c_type(t, h), Some(h)))
    } else if is_ptr && model_handle(t) is Some {
        let h = model_handle(t)->0;
        Some(tv(IrTypeKind::ModelPointer, t, model_c_type(t, h), Some(h)))
    } else if model_handle(t) is Some {
        let h = model_handle(t)->0;
        Some(tv(IrTypeKind::ModelValue, t, h + "*"@, Some(h)))
    } else {
        None
    }
}

/// Arrays of characters, bytes, primitives and models.
pub open spec fn norm_array(t: Seq<char>) -> Option<IrTypeV> {
    if is_char_array(t) {
        Some(tv(IrTypeKind::CString, t, "const char*"@, None))
    } else if is_unsigned_char_array(t) {
        Some(tv(IrTypeKind::FixedByteArray, t, "uint8_t*"@, None))
    } else {
        match parse_array(t) {
            Some((elem, _)) => if is_primitive_name(elem) {
                Some(tv(IrTypeKind::FixedArray, t, canonical_prim(elem) + "*"@, None))
            } else if model_handle(elem) is Some {
                let h = model_handle(elem)->0;
                Some(tv(IrTypeKind::FixedModelArray, t, h + "**"@, Some(h)))
            } else {
                None
            },
            None => None,
        }
    }
}

pub open spec fn norm_plain(t: Seq<char>) -> Result<IrTypeV, Seq<char>> {
    match norm_array(t) {
        Some(ty) => Ok(ty),
        None => match norm_literal(t) {
            Some(ty) => Ok(ty),
            None => match norm_suffix(t) {
                Some(ty) => Ok(ty),
                None => Err("unsupported C++ type in v1: "@ + t),
            },
        },
    }
}

/// The classification of a C++ type spelling (without its canonical form).
pub open spec fn norm_type(s: Seq<char>, cbs: Seq<Seq<char>>) -> Result<IrTypeV, Seq<char>>
    decreases s.len(),
{
    let t = trim(s);
    if is_double_pointer(t) {
        Err("unsupported double-pointer type in v1: "@ + t)
    } else if cbs.contains(t) {
        Ok(tv(IrTypeKind::Callback, t, t, None))
    } else {
        let from_const = match strip_prefix(t, "const "@) {
            Some(st0) => {
                let st = trim(st0);
                if !ends_with(st, seq!['*']) && !ends_with(st, seq!['&']) {
                    proof {
                        lemma_trim_len(s);
                        lemma_trim_len(st0);
                        reveal_strlit("const ");
                    }
                    match norm_type(st, cbs) {
                        Ok(ty) => Some(IrTypeV { cpp_type: t, ..ty }),
                        Err(_) => None,
                    }
                } else {
                    None
                }
            },
            None => None,
        };
        match from_const {
            Some(ty) => Ok(ty),
            None => norm_plain(t),
        }
    }
}

fn lit_type(kind: IrTypeKind, cpp: &[char], c: &str) -> (r: IrType)
    ensures
        r@ == tv(kind, cpp@, c@, None),
{
    let cv = chars_of(c);
    mk_type(kind, cpp, cv.as_slice(), None)
}

fn with_star(v: &[char], stars: &str) -> (r: Vec<char>)
    ensures
        r@ == v@ + stars@,
{
    let mut out = slice_vec(v, 0, v.len());
    append_lit(&mut out, stars);
    out
}

pub fn normalize_literal(t: &[char]) -> (r: Option<IrType>)
    ensures
        match norm_literal(t@) {
            Some(ty) => r is Some && r->0@ == ty,
            None => r is None,
        },
{
    if eq_lit(t, "void") || eq_lit(t, "bool") || eq_lit(t, "int") || eq_lit(t, "short") || eq_lit(
        t,
        "long",
    ) || eq_lit(t, "long long") || eq_lit(t, "float") || eq_lit(t, "double") || eq_lit(
        t,
        "size_t",
    ) || eq_lit(t, "char") || eq_lit(t, "const char") || eq_lit(t, "unsigned") || eq_lit(
        t,
        "unsigned int",
    ) || eq_lit(t, "unsigned short") || eq_lit(t, "unsigned long") || eq_lit(
        t,
        "unsigned long long",
    ) || eq_lit(t, "signed char") || eq_lit(t, "unsigned char") {
        return Some(primitive_type_vec(t));
    }
    if eq_lit(t, "uint8") || eq_lit(t, "uint16") || eq_lit(t, "uint32") || eq_lit(t, "uint64")
        || eq_lit(t, "int8") || eq_lit(t, "int16") || eq_lit(t, "int32") || eq_lit(t, "int64") {
        let c = canonical_primitive_c_type(t);
        return Some(mk_type(IrTypeKind::Primitive, t, c.as_slice(), None));
    }
    if eq_lit(t, "const char *") || eq_lit(t, "const char*") || eq_lit(t, "NPCSTR") || eq_lit(
        t,
        "NPSTRC",
    ) || eq_lit(t, "NPCSTRC") {
        return Some(lit_type(IrTypeKind::CString, t, "const char*"));
    }
    if eq_lit(t, "char *") || eq_lit(t, "char*") || eq_lit(t, "NPSTR") {
        return Some(lit_type(IrTypeKind::CString, t, "char*"));
    }
    if eq_lit(t, "NPVOID") || eq_lit(t, "void *") || eq_lit(t, "void*") {
        let cpp = chars_of("void");
        let c = chars_of("NPVOIDHandle*");
        let h = chars_of("NPVOIDHandle");
        return Some(mk_type(IrTypeKind::ModelPointer, cpp.as_slice(), c.as_slice(), Some(h)));
    }
    if eq_lit(t, "std::string") || eq_lit(t, "const std::string &") || eq_lit(
        t,
        "const std::string&",
    ) || eq_lit(t, "std::string_view") {
        return Some(lit_type(IrTypeKind::String, t, "char*"));
    }
    None
}

fn model_c_type_vec(t: &[char], h: &[char]) -> (r: Vec<char>)
    ensures
        r@ == model_c_type(t@, h@),
{
    if is_const_qualified_model_type(t) {
        let mut out = chars_of("const ");
        append_chars(&mut out, h);
        append_lit(&mut out, "*");
        out
    } else {
        with_star(h, "*")
    }
}

pub fn normalize_suffix(t: &[char]) -> (r: Option<IrType>)
    ensures
        match norm_suffix(t@) {
            Some(ty) => r is Some && r->0@ == ty,
            None => r is None,
        },
{
    let bp0 = trim_end_char_vec(t, '*');
    let bp = trim_vec(bp0.as_slice());
    let br0 = trim_end_char_vec(t, '&');
    let br = trim_vec(br0.as_slice());
    let is_ptr = ends_with_char(t, '*');
    let is_ref = ends_with_char(t, '&');
    if is_ptr && is_supported_primitive(bp.as_slice()) {
        let c = canonical_primitive_c_type(bp.as_slice());
        let c2 = with_star(c.as_slice(), "*");
        return Some(mk_type(IrTypeKind::Pointer, t, c2.as_slice(), None));
    }
    if is_ref && is_supported_primitive(br.as_slice()) {
        let c = canonical_primitive_c_type(br.as_slice());
        let c2 = with_star(c.as_slice(), "*");
        return Some(mk_type(IrTypeKind::Reference, t, c2.as_slice(), None));
    }
    let ext = extern_c_struct_base_type(t);
    if is_ref && ext.is_some() {
        let b = ext.unwrap();
        let c2 = with_star(b.as_slice(), "*");
        return Some(mk_type(IrTypeKind::ExternStructReference, t, c2.as_slice(), None));
    }
    if is_ptr && ext.is_some() {
        let b = ext.unwrap();
        let c2 = with_star(b.as_slice(), "*");
        return Some(mk_type(IrTypeKind::ExternStructPointer, t, c2.as_slice(), None));
    }
    let mh = model_handle_vec(t);
    match mh {
        None => None,
        Some(h) => {
            if is_ref {
                let c = model_c_type_vec(t, h.as_slice());
                Some(mk_type(IrTypeKind::ModelReference, t, c.as_slice(), Some(h)))
            } else if is_ptr {
                let c = model_c_type_vec(t, h.as_slice());
                Some(mk_type(IrTypeKind::ModelPointer, t, c.as_slice(), Some(h)))
            } else {
                let c = with_star(h.as_slice(), "*");
                Some(mk_type(IrTypeKind::ModelValue, t, c.as_slice(), Some(h)))
            }
        },
    }
}

pub fn normalize_array(t: &[char]) -> (r: Option<IrType>)
    ensures
        match norm_array(t@) {
            Some(ty) => r is Some && r->0@ == ty,
            None => r is None,
        },
{
    if is_char_array_type(t) {
        return Some(lit_type(IrTypeKind::CString, t, "const char*"));
    }
    if is_unsigned_char_array_type(t) {
        return Some(lit_type(IrTypeKind::FixedByteArray, t, "uint8_t*"));
    }
    match parse_array_vec(t) {
        Some((elem, _)) => {
            if is_supported_primitive(elem.as_slice()) {
                let c = canonical_primitive_c_type(elem.as_slice());
                let c2 = with_star(c.as_slice(), "*");
                return Some(mk_type(IrTypeKind::FixedArray, t, c2.as_slice(), None));
            }
            match model_handle_vec(elem.as_slice()) {
                Some(h) => {
                    let c = with_star(h.as_slice(), "**");
                    Some(mk_type(IrTypeKind::FixedModelArray, t, c.as_slice(), Some(h)))
                },
                None => None,
            }
        },
        None => None,
    }
}

fn message(prefix: &str, t: &[char]) -> (r: String)
    ensures
        r@ == prefix@ + t@,
{
    let mut out = String::new();
    push_str(&mut out, prefix);
    push_chars(&mut out, t);
    assert(out@ =~= prefix@ + t@);
    out
}

pub fn normalize_plain(t: &[char]) -> (r: Result<IrType, String>)
    ensures
        match norm_plain(t@) {
            Ok(ty) => r is Ok && r->Ok_0@ == ty,
            Err(e) => r is Err && r->Err_0@ == e,
        },
{
    match normalize_array(t) {
        Some(ty) => Ok(ty),
        None => match normalize_literal(t) {
            Some(ty) => Ok(ty),
            None => match normalize_suffix(t) {
                Some(ty) => Ok(ty),
                None => Err(message("unsupported C++ type in v1: ", t)),
            },
        },
    }
}

pub fn normalize_type_vec(s: &[char], callback_names: &Vec<String>) -> (r: Result<IrType, String>)
    ensures
        match norm_type(s@, strs(callback_names@)) {
            Ok(ty) => r is Ok && r->Ok_0@ == ty,
            Err(e) => r is Err && r->Err_0@ == e,
        },
    decreases s@.len(),
{
    let t = trim_vec(s);
    if is_unsupported_double_pointer_type(t.as_slice()) {
        return Err(message("unsupported double-pointer type in v1: ", t.as_slice()));
    }
    if contains_str(callback_names, t.as_slice()) {
        return Ok(mk_type(IrTypeKind::Callback, t.as_slice(), t.as_slice(), None));
    }
    match strip_prefix_lit(t.as_slice(), "const ") {
        Some(st0) => {
            let st = trim_vec(st0.as_slice());
            if !ends_with_char(st.as_slice(), '*') && !ends_with_char(st.as_slice(), '&') {
                proof {
                    lemma_trim_len(s@);
                    lemma_trim_len(st0@);
                    reveal_strlit("const ");
                }
                match normalize_type_vec(st.as_slice(), callback_names) {
                    Ok(ty) => {
                        return Ok(
                            IrType {
                                kind: ty.kind,
                                cpp_type: string_of(t.as_slice()),
                                c_type: ty.c_type,
                                handle: ty.handle,
                            },
                        );
                    },
                    Err(_) => {},
                }
            }
        },
        None => {},
    }
    normalize_plain(t.as_slice())
}

/// Classifies a C++ type spelling into the IR type model.
pub fn normalize_type(cpp_type: &str, callback_names: &Vec<String>) -> (r: Result<IrType, String>)
    ensures
        match norm_type(cpp_type@, strs(callback_names@)) {
            Ok(ty) => r is Ok && r->Ok_0@ == ty,
            Err(e) => r is Err && r->Err_0@ == e,
        },
{
    let v = chars_of(cpp_type);
    normalize_type_vec(v.as_slice(), callback_names)
}

// ---------------------------------------------------------------------------
// Known records and enums
// ---------------------------------------------------------------------------

/// Two base names denote the same declaration when equal, or when one is the
/// unqualified leaf of the other.
pub open spec fn names_match(normalized: Seq<char>, base: Seq<char>) -> bool {
    normalized == base || after_last(normalized, "::"@) == base || after_last(base, "::"@)
        == normalized
}

pub fn names_match_exec(normalized: &[char], base: &[char]) -> (b: bool)
    ensures
        b == names_match(normalized@, base@),
{
    if seq_eq(normalized, base) {
        return true;
    }
    let a = after_last_lit(normalized, "::");
    if seq_eq(a.as_slice(), base) {
        return true;
    }
    let b = after_last_lit(base, "::");
    seq_eq(b.as_slice(), normalized)
}

/// Index of the first record that `value` names.
pub open spec fn first_record(recs: Seq<IrRecordV>, value: Seq<char>, i: int) -> Option<int>
    decreases recs.len() - i,
{
    if i < 0 || i >= recs.len() {
        None
    } else if names_match(record_base(recs[i].cpp_type), record_base(value)) {
        Some(i)
    } else {
        first_record(recs, value, i + 1)
    }
}

pub proof fn lemma_first_record_bounds(recs: Seq<IrRecordV>, value: Seq<char>, i: int)
    ensures
        first_record(recs, value, i) matches Some(k) ==> i <= k < recs.len(),
    decreases recs.len() - i,
{
    if 0 <= i < recs.len() && !names_match(record_base(recs[i].cpp_type), record_base(value)) {
        lemma_first_record_bounds(recs, value, i + 1);
    }
}

pub fn known_record(value: &[char], known_records: &[IrRecord]) -> (r: Option<usize>)
    ensures
        match r {
            Some(k) => first_record(records_view(known_records@), value@, 0) == Some(k as int)
                && k < known_records.len(),
            None => first_record(records_view(known_records@), value@, 0) is None,
        },
{
    let base = record_base_vec(value);
    let ghost recs = records_view(known_records@);
    let mut i: usize = 0;
    while i < known_records.len()
        invariant
            i <= known_records.len(),
            recs == records_view(known_records@),
            base@ == record_base(value@),
            first_record(recs, value@, 0) == first_record(recs, value@, i as int),
        decreases known_records.len() - i,
    {
        let c = chars_of(known_records[i].cpp_type.as_str());
        let normalized = record_base_vec(c.as_slice());
        assert(recs[i as int].cpp_type == known_records@[i as int].cpp_type@);
        if names_match_exec(normalized.as_slice(), base.as_slice()) {
            return Some(i);
        }
        i = i + 1;
    }
    None
}

pub open spec fn canon_record_cpp(original: Seq<char>, rec: Seq<char>) -> Seq<char> {
    let base = if starts_with(trim(original), "const "@) {
        "const "@ + rec
    } else {
        rec
    };
    match shape_of(original) {
        TypeShape::Pointer => base + "*"@,
        TypeShape::Reference => base + "&"@,
        TypeShape::Value => base,
    }
}

pub fn canonicalized_known_record_cpp_type(original: &[char], rec: &[char]) -> (r: Vec<char>)
    ensures
        r@ == canon_record_cpp(original@, rec@),
{
    let t = trim_vec(original);
    let mut base = if starts_with_lit(t.as_slice(), "const ") {
        let mut b = chars_of("const ");
        append_chars(&mut b, rec);
        b
    } else {
        slice_vec(rec, 0, rec.len())
    };
    match raw_type_shape(original) {
        TypeShape::Pointer => {
            append_lit(&mut base, "*");
            base
        },
        TypeShape::Reference => {
            append_lit(&mut base, "&");
            base
        },
        TypeShape::Value => base,
    }
}

pub open spec fn canon_record_array(original: Seq<char>, rec: Seq<char>) -> Seq<char> {
    let n: nat = match parse_array(original) {
        Some((_, n)) => n,
        None => 0,
    };
    rec + "["@ + decimal(n) + "]"@
}

pub open spec fn known_record_type(t: Seq<char>, recs: Seq<IrRecordV>) -> Option<IrTypeV> {
    match parse_array(trim(t)) {
        Some((elem, _)) => match first_record(recs, elem, 0) {
            Some(k) => {
                let rec = recs[k];
                Some(
                    tv(
                        IrTypeKind::FixedModelArray,
                        canon_record_array(trim(t), rec.cpp_type),
                        rec.handle_name + "**"@,
                        Some(rec.handle_name),
                    ),
                )
            },
            None => None,
        },
        None => match first_record(recs, trim(t), 0) {
            Some(k) => {
                let rec = recs[k];
                let tt = trim(t);
                let c = if const_qualified(tt) {
                    "const "@ + rec.handle_name + "*"@
                } else {
                    rec.handle_name + "*"@
                };
                let kind = match shape_of(tt) {
                    TypeShape::Pointer => IrTypeKind::ModelPointer,
                    TypeShape::Reference => IrTypeKind::ModelReference,
                    TypeShape::Value => IrTypeKind::ModelValue,
                };
                Some(tv(kind, canon_record_cpp(tt, rec.cpp_type), c, Some(rec.handle_name)))
            },
            None => None,
        },
    }
}

pub fn normalize_known_record_type(cpp_type: &[char], known_records: &[IrRecord]) -> (r: Option<
    IrType,
>)
    ensures
        match known_record_type(cpp_type@, records_view(known_records@)) {
            Some(ty) => r is Some && r->0@ == ty,
            None => r is None,
        },
{
    let t = trim_vec(cpp_type);
    let ghost recs = records_view(known_records@);
    match parse_array_vec(t.as_slice()) {
        Some((elem, n)) => {
            let k = match known_record(elem.as_slice(), known_records) {
                Some(k) => k,
                None => return None,
            };
            let rec = &known_records[k];
            assert(recs[k as int] == rec@);
            let rc = chars_of(rec.cpp_type.as_str());
            let hn = chars_of(rec.handle_name.as_str());
            let mut cpp = slice_vec(rc.as_slice(), 0, rc.len());
            assert(cpp@ =~= rc@);
            append_lit(&mut cpp, "[");
            let digits = decimal_vec(n);
            append_chars(&mut cpp, digits.as_slice());
            append_lit(&mut cpp, "]");
            let c = with_star(hn.as_slice(), "**");
            Some(mk_type(IrTypeKind::FixedModelArray, cpp.as_slice(), c.as_slice(), Some(hn)))
        },
        None => {
            let k = match known_record(t.as_slice(), known_records) {
                Some(k) => k,
                None => return None,
            };
            let rec = &known_records[k];
            assert(recs[k as int] == rec@);
            let rc = chars_of(rec.cpp_type.as_str());
            let hn = chars_of(rec.handle_name.as_str());
            let cpp = canonicalized_known_record_cpp_type(t.as_slice(), rc.as_slice());
            let c = if is_const_qualified_model_type(t.as_slice()) {
                let mut c = chars_of("const ");
                append_chars(&mut c, hn.as_slice());
                append_lit(&mut c, "*");
                c
            } else {
                with_star(hn.as_slice(), "*")
            };
            let kind = match raw_type_shape(t.as_slice()) {
                TypeShape::Pointer => IrTypeKind::ModelPointer,
                TypeShape::Reference => IrTypeKind::ModelReference,
                TypeShape::Value => IrTypeKind::ModelValue,
            };
            proof {
                lemma_unconst_trim(cpp_type@);
            }
            Some(mk_type(kind, cpp.as_slice(), c.as_slice(), Some(hn)))
        },
    }
}

pub proof fn lemma_trim_start_idem(s: Seq<char>)
    ensures
        trim_start(trim_start(s)) == trim_start(s),
    decreases s.len(),
{
    if s.len() > 0 && is_ws(s[0]) {
        lemma_trim_start_idem(s.drop_first());
    }
}

pub proof fn lemma_trim_end_idem(s: Seq<char>)
    ensures
        trim_end(trim_end(s)) == trim_end(s),
    decreases s.len(),
{
    if s.len() > 0 && is_ws(s.last()) {
        lemma_trim_end_idem(s.drop_last());
    }
}

pub proof fn lemma_trim_end_keeps_start(s: Seq<char>)
    requires
        s.len() == 0 || !is_ws(s[0]),
    ensures
        trim_end(s).len() == 0 || !is_ws(trim_end(s)[0]),
        trim_start(trim_end(s)) == trim_end(s),
    decreases s.len(),
{
    if s.len() > 0 && is_ws(s.last()) {
        if s.len() > 1 {
            assert(s.drop_last()[0] == s[0]);
        }
        lemma_trim_end_keeps_start(s.drop_last());
    }
}

pub proof fn lemma_trim_start_stable(s: Seq<char>)
    ensures
        trim_start(s).len() == 0 || !is_ws(trim_start(s)[0]),
    decreases s.len(),
{
    if s.len() > 0 && is_ws(s[0]) {
        lemma_trim_start_stable(s.drop_first());
    }
}

/// Trimming twice is trimming once.
pub proof fn lemma_trim_idem(s: Seq<char>)
    ensures
        trim(trim(s)) == trim(s),
{
    lemma_trim_start_stable(s);
    lemma_trim_end_keeps_start(trim_start(s));
    lemma_trim_end_idem(trim_start(s));
}

pub proof fn lemma_unconst_trim(s: Seq<char>)
    ensures
        unconst(trim(s)) == unconst(s),
        shape_of(trim(s)) == shape_of(s),
        const_qualified(trim(s)) == const_qualified(s),
        trim(trim(s)) == trim(s),
        parse_array(trim(s)) == parse_array(s),
{
    lemma_trim_idem(s);
}

pub open spec fn enum_tv(e: Seq<char>) -> IrTypeV {
    tv(IrTypeKind::Enum, e, "int64_t"@, None)
}

/// Whether some known enum is named by `value`.
pub open spec fn known_enum(value: Seq<char>, enums: Seq<Seq<char>>) -> bool {
    exists|i: int| 0 <= i < enums.len() && names_match(enum_base(enums[i]), enum_base(value))
}

pub fn known_enum_exec(value: &[char], known_enum_types: &Vec<String>) -> (b: bool)
    ensures
        b == known_enum(value@, strs(known_enum_types@)),
{
    let base = enum_base_vec(value);
    let ghost es = strs(known_enum_types@);
    let mut i: usize = 0;
    while i < known_enum_types.len()
        invariant
            i <= known_enum_types.len(),
            es == strs(known_enum_types@),
            base@ == enum_base(value@),
            forall|k: int| 0 <= k < i ==> !names_match(enum_base(es[k]), enum_base(value@)),
        decreases known_enum_types.len() - i,
    {
        let c = chars_of(known_enum_types[i].as_str());
        let normalized = enum_base_vec(c.as_slice());
        assert(es[i as int] == known_enum_types@[i as int]@);
        if names_match_exec(normalized.as_slice(), base.as_slice()) {
            return true;
        }
        i = i + 1;
    }
    false
}

pub open spec fn resolved_enum(d: Seq<char>, c: Seq<char>, enums: Seq<Seq<char>>) -> Option<
    Seq<char>,
> {
    if shape_of(d) != TypeShape::Value {
        None
    } else if known_enum(d, enums) {
        Some(trim(d))
    } else if known_enum(c, enums) {
        Some(trim(c))
    } else {
        None
    }
}

pub fn resolved_enum_cpp_type(d: &[char], c: &[char], known_enum_types: &Vec<String>) -> (r:
    Option<Vec<char>>)
    ensures
        match resolved_enum(d@, c@, strs(known_enum_types@)) {
            Some(e) => r is Some && r->0@ == e,
            None => r is None,
        },
{
    if raw_type_shape(d) != TypeShape::Value {
        return None;
    }
    if known_enum_exec(d, known_enum_types) {
        return Some(trim_vec(d));
    }
    if known_enum_exec(c, known_enum_types) {
        return Some(trim_vec(c));
    }
    None
}

pub fn enum_value_type(cpp_type: &[char]) -> (r: IrType)
    ensures
        r@ == enum_tv(cpp_type@),
{
    lit_type(IrTypeKind::Enum, cpp_type, "int64_t")
}

pub open spec fn reason_type(d: Seq<char>, c: Seq<char>) -> Seq<char> {
    if c.len() == 0 || c == d {
        d
    } else {
        d + " ("@ + c + ")"@
    }
}

pub fn format_type_for_reason(d: &[char], c: &[char]) -> (r: Vec<char>)
    ensures
        r@ == reason_type(d@, c@),
{
    if c.len() == 0 || seq_eq(c, d) {
        slice_vec(d, 0, d.len())
    } else {
        let mut out = slice_vec(d, 0, d.len());
        append_lit(&mut out, " (");
        append_chars(&mut out, c);
        append_lit(&mut out, ")");
        out
    }
}

pub open spec fn is_model_or_model_array(k: IrTypeKind) -> bool {
    k == IrTypeKind::ModelReference || k == IrTypeKind::ModelPointer || k
        == IrTypeKind::ModelValue || k == IrTypeKind::FixedModelArray
}

pub open spec fn is_plain_canonical_kind(k: IrTypeKind) -> bool {
    k == IrTypeKind::ExternStructReference || k == IrTypeKind::ExternStructPointer || k
        == IrTypeKind::Primitive || k == IrTypeKind::Reference || k == IrTypeKind::Pointer || k
        == IrTypeKind::String || k == IrTypeKind::CString || k == IrTypeKind::FixedByteArray || k
        == IrTypeKind::FixedArray
}

/// The classification of a C++ type from its written and its canonical spelling.
pub open spec fn norm_with_canonical(
    disp: Seq<char>,
    canon: Seq<char>,
    cbs: Seq<Seq<char>>,
    enums: Seq<Seq<char>>,
    recs: Seq<IrRecordV>,
) -> Result<IrTypeV, Seq<char>> {
    let t = trim(disp);
    let ct = trim(canon);
    if is_double_pointer(t) || (ct.len() > 0 && is_double_pointer(ct)) {
        Err("unsupported double-pointer type in v1: "@ + reason_type(t, ct))
    } else if resolved_enum(t, ct, enums) is Some {
        Ok(enum_tv(resolved_enum(t, ct, enums)->0))
    } else if known_record_type(t, recs) is Some {
        Ok(known_record_type(t, recs)->0)
    } else if ct != t && shape_of(t) == shape_of(ct) && known_record_type(ct, recs) is Some {
        let ty = known_record_type(ct, recs)->0;
        Ok(IrTypeV { cpp_type: canon_record_cpp(t, base_model(ty.cpp_type)), ..ty })
    } else {
        match norm_type(t, cbs) {
            Ok(ty) => if is_model_or_model_array(ty.kind) && ct != t {
                match norm_type(ct, cbs) {
                    Ok(cty) => if is_plain_canonical_kind(cty.kind) {
                        Ok(IrTypeV { cpp_type: t, ..cty })
                    } else if is_model_kind(cty.kind) {
                        Ok(IrTypeV { cpp_type: ct, ..ty })
                    } else {
                        Ok(ty)
                    },
                    Err(_) => Ok(ty),
                }
            } else {
                Ok(ty)
            },
            Err(_) => if ct != t {
                if shape_of(t) == shape_of(ct) && norm_type(ct, cbs) is Ok {
                    Ok(IrTypeV { cpp_type: t, ..norm_type(ct, cbs)->Ok_0 })
                } else {
                    Err("unsupported C++ type in v1: "@ + t + " (canonical: "@ + ct + ")"@)
                }
            } else {
                Err("unsupported C++ type in v1: "@ + t)
            },
        }
    }
}

fn with_cpp(ty: IrType, cpp: &[char]) -> (r: IrType)
    ensures
        r@ == (IrTypeV { cpp_type: cpp@, ..ty@ }),
{
    IrType { kind: ty.kind, cpp_type: string_of(cpp), c_type: ty.c_type, handle: ty.handle }
}

pub fn normalize_type_with_canonical_vec(
    disp: &[char],
    canon: &[char],
    callback_names: &Vec<String>,
    known_enum_types: &Vec<String>,
    known_records: &[IrRecord],
) -> (r: Result<IrType, String>)
    ensures
        match norm_with_canonical(
            disp@,
            canon@,
            strs(callback_names@),
            strs(known_enum_types@),
            records_view(known_records@),
        ) {
            Ok(ty) => r is Ok && r->Ok_0@ == ty,
            Err(e) => r is Err && r->Err_0@ == e,
        },
{
    let t = trim_vec(disp);
    let ct = trim_vec(canon);
    proof {
        lemma_unconst_trim(disp@);
        lemma_unconst_trim(canon@);
        lemma_trim_idem(disp@);
        lemma_trim_idem(canon@);
    }
    if is_unsupported_double_pointer_type(t.as_slice()) || (ct.len() > 0
        && is_unsupported_double_pointer_type(ct.as_slice())) {
        let reason = format_type_for_reason(t.as_slice(), ct.as_slice());
        return Err(message("unsupported double-pointer type in v1: ", reason.as_slice()));
    }
    match resolved_enum_cpp_type(t.as_slice(), ct.as_slice(), known_enum_types) {
        Some(e) => return Ok(enum_value_type(e.as_slice())),
        None => {},
    }
    match normalize_known_record_type(t.as_slice(), known_records) {
        Some(ty) => return Ok(ty),
        None => {},
    }
    let same = seq_eq(ct.as_slice(), t.as_slice());
    if !same && raw_type_shape(t.as_slice()) == raw_type_shape(ct.as_slice()) {
        match normalize_known_record_type(ct.as_slice(), known_records) {
            Some(ty) => {
                let tc = chars_of(ty.cpp_type.as_str());
                let b = base_model_vec(tc.as_slice());
                let cpp = canonicalized_known_record_cpp_type(t.as_slice(), b.as_slice());
                return Ok(with_cpp(ty, cpp.as_slice()));
            },
            None => {},
        }
    }
    match normalize_type_vec(t.as_slice(), callback_names) {
        Ok(ty) => {
            let k = ty.kind;
            if (k == IrTypeKind::ModelReference || k == IrTypeKind::ModelPointer || k
                == IrTypeKind::ModelValue || k == IrTypeKind::FixedModelArray) && !same {
                match normalize_type_vec(ct.as_slice(), callback_names) {
                    Ok(cty) => {
                        let ck = cty.kind;
                        if ck == IrTypeKind::ExternStructReference || ck
                            == IrTypeKind::ExternStructPointer || ck == IrTypeKind::Primitive || ck
                            == IrTypeKind::Reference || ck == IrTypeKind::Pointer || ck
                            == IrTypeKind::String || ck == IrTypeKind::CString || ck
                            == IrTypeKind::FixedByteArray || ck == IrTypeKind::FixedArray {
                            return Ok(with_cpp(cty, t.as_slice()));
                        }
                        if ck == IrTypeKind::ModelValue || ck == IrTypeKind::ModelReference || ck
                            == IrTypeKind::ModelPointer {
                            return Ok(with_cpp(ty, ct.as_slice()));
                        }
                        Ok(ty)
                    },
                    Err(_) => Ok(ty),
                }
            } else {
                Ok(ty)
            }
        },
        Err(_) => {
            if !same {
                if raw_type_shape(t.as_slice()) == raw_type_shape(ct.as_slice()) {
                    match normalize_type_vec(ct.as_slice(), callback_names) {
                        Ok(ty) => return Ok(with_cpp(ty, t.as_slice())),
                        Err(_) => {},
                    }
                }
                let mut m = chars_of("unsupported C++ type in v1: ");
                append_chars(&mut m, t.as_slice());
                append_lit(&mut m, " (canonical: ");
                append_chars(&mut m, ct.as_slice());
                append_lit(&mut m, ")");
                return Err(string_of(m.as_slice()));
            }
            Err(message("unsupported C++ type in v1: ", t.as_slice()))
        },
    }
}

} // verus!
