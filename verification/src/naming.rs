//! C ABI symbol names: qualification, flattening and overload suffixes.
use vstd::prelude::*;

use crate::config::{Config, WRAPPER_PREFIX};
use crate::ir::{params_view, strs, IrFunction, IrParam, IrParamV, IrType, IrTypeV};
use crate::kind::{IrFunctionKind, IrTypeKind};
use crate::text::{
    char_is_alnum, char_lower, chars_of, contains_lit, contains_seq, decimal, decimal_vec, eq_lit,
    is_alnum, join, lower, push_chars, push_one, push_str, push_string, remove_all,
    remove_all_lit, string_of, trim_end_char, trim_end_char_vec, trim_start_char,
    trim_start_char_vec, views,
};
use crate::types::{
    base_model, base_model_vec, byte_array_len, byte_array_length, enum_base, enum_base_vec,
    fixed_array_length, parse_array, parse_array_vec,
};

verus! {

/// `namespace::...::leaf`
pub open spec fn qualified(ns: Seq<Seq<char>>, leaf: Seq<char>) -> Seq<char> {
    if ns.len() == 0 {
        leaf
    } else {
        join(ns, "::"@) + "::"@ + leaf
    }
}

/// The namespace parts and the leaf run together.
pub open spec fn flattened(ns: Seq<Seq<char>>, leaf: Seq<char>) -> Seq<char> {
    if ns.len() == 0 {
        leaf
    } else {
        join(ns, ""@) + leaf
    }
}

pub fn cpp_qualified(namespace: &[String], leaf: &str) -> (r: String)
    ensures
        r@ == qualified(strs(namespace@), leaf@),
{
    if namespace.len() == 0 {
        return String::from_str(leaf);
    }
    let v = vec_of(namespace);
    let mut out = crate::text::join_strings(&v, "::");
    push_str(&mut out, "::");
    push_str(&mut out, leaf);
    out
}

fn vec_of(items: &[String]) -> (r: Vec<String>)
    ensures
        strs(r@) == strs(items@),
        views(r@) == strs(items@),
{
    let mut r: Vec<String> = Vec::new();
    let mut i: usize = 0;
    while i < items.len()
        invariant
            i <= items.len(),
            strs(r@) =~= strs(items@.take(i as int)),
        decreases items.len() - i,
    {
        let c = items[i].clone();
        let ghost before = r@;
        r.push(c);
        assert(items@.take(i + 1) =~= items@.take(i as int).push(items@[i as int]));
        assert(strs(r@) =~= strs(before).push(c@));
        i = i + 1;
    }
    assert(items@.take(i as int) =~= items@);
    assert(views(r@) =~= strs(r@));
    r
}

/// Namespace parts concatenated with the leaf, no separator.
pub fn flatten_cpp_name(namespace: &[String], leaf: &str) -> (r: String)
    ensures
        r@ == flattened(strs(namespace@), leaf@),
{
    if namespace.len() == 0 {
        return String::from_str(leaf);
    }
    let v = vec_of(namespace);
    let mut out = crate::text::join_strings(&v, "");
    push_str(&mut out, leaf);
    out
}

/// Every `::` removed from a qualified name.
pub fn flatten_qualified_cpp_name(value: &str) -> (r: String)
    ensures
        r@ == remove_all(value@, "::"@),
{
    let v = chars_of(value);
    let f = remove_all_lit(v.as_slice(), "::");
    string_of(f.as_slice())
}

/// Lowercased ASCII alphanumerics with each run of other characters turned into one `_`
/// (before the edges are trimmed).
pub open spec fn sanitize_raw(v: Seq<char>) -> Seq<char>
    decreases v.len(),
{
    if v.len() == 0 {
        seq![]
    } else {
        let r = sanitize_raw(v.drop_last());
        let c = v.last();
        if is_alnum(c) {
            r.push(lower(c))
        } else if r.len() > 0 && r.last() == '_' {
            r
        } else {
            r.push('_')
        }
    }
}

/// A symbol token: `sanitize_raw` without leading or trailing `_`.
pub open spec fn sanitize(v: Seq<char>) -> Seq<char> {
    trim_start_char(trim_end_char(sanitize_raw(v), '_'), '_')
}

pub fn sanitize_symbol_token_vec(v: &[char]) -> (r: Vec<char>)
    ensures
        r@ == sanitize(v@),
{
    let mut out: Vec<char> = Vec::new();
    let mut last_was_underscore = false;
    let mut i: usize = 0;
    while i < v.len()
        invariant
            i <= v.len(),
            out@ == sanitize_raw(v@.take(i as int)),
            last_was_underscore == (out@.len() > 0 && out@.last() == '_'),
        decreases v.len() - i,
    {
        assert(v@.take(i + 1).drop_last() =~= v@.take(i as int));
        let ch = v[i];
        if char_is_alnum(ch) {
            let l = char_lower(ch);
            out.push(l);
            last_was_underscore = false;
            assert(l != '_');
        } else if !last_was_underscore {
            out.push('_');
            last_was_underscore = true;
        }
        i = i + 1;
    }
    assert(v@.take(i as int) =~= v@);
    let a = trim_end_char_vec(out.as_slice(), '_');
    trim_start_char_vec(a.as_slice(), '_')
}

pub fn sanitize_symbol_token(value: &str) -> (r: String)
    ensures
        r@ == sanitize(value@),
{
    let v = chars_of(value);
    let s = sanitize_symbol_token_vec(v.as_slice());
    string_of(s.as_slice())
}

/// The parts of a C ABI symbol, before joining with `_`.
pub open spec fn symbol_parts(ns: Seq<Seq<char>>, owner: Seq<char>, tail: Seq<char>) -> Seq<
    Seq<char>,
> {
    let head = seq![WRAPPER_PREFIX@] + ns;
    let with_owner = if owner.len() == 0 {
        head
    } else {
        head.push(owner)
    };
    with_owner.push(tail)
}

/// `cgowrap_<namespace..>_<owner>_<tail>`, the owner left out when empty.
pub fn symbol_name(_config: &Config, namespace: &[String], owner: &str, tail: &str) -> (r: String)
    ensures
        r@ == join(symbol_parts(strs(namespace@), owner@, tail@), "_"@),
{
    let mut parts: Vec<String> = Vec::new();
    parts.push(String::from_str(WRAPPER_PREFIX));
    let mut i: usize = 0;
    while i < namespace.len()
        invariant
            i <= namespace.len(),
            views(parts@) =~= seq![WRAPPER_PREFIX@] + strs(namespace@).take(i as int),
        decreases namespace.len() - i,
    {
        let c = namespace[i].clone();
        let ghost before = parts@;
        parts.push(c);
        assert(views(parts@) =~= views(before).push(c@));
        assert(strs(namespace@).take(i + 1) =~= strs(namespace@).take(i as int).push(
            namespace@[i as int]@,
        ));
        i = i + 1;
    }
    assert(strs(namespace@).take(i as int) =~= strs(namespace@));
    let ghost head = views(parts@);
    let o = chars_of(owner);
    if o.len() > 0 {
        parts.push(String::from_str(owner));
        assert(views(parts@) =~= head.push(owner@));
    }
    let ghost mid = views(parts@);
    parts.push(String::from_str(tail));
    assert(views(parts@) =~= mid.push(tail@));
    crate::text::join_strings(&parts, "_")
}

/// The parameters that distinguish overloads: all but the receiver of a method or
/// destructor.
pub open spec fn signature_params(f: IrFunctionKind, bound: bool, ps: Seq<IrParamV>) -> Seq<
    IrParamV,
> {
    if bound && (f == IrFunctionKind::Method || f == IrFunctionKind::Destructor) {
        ps.drop_first()
    } else {
        ps
    }
}

pub open spec fn opt_len(o: Option<nat>) -> nat {
    match o {
        Some(n) => n,
        None => 0,
    }
}

/// One parameter type as an overload-suffix token.
pub open spec fn sig_token(t: IrTypeV) -> Seq<char> {
    match t.kind {
        IrTypeKind::Primitive => sanitize(t.cpp_type),
        IrTypeKind::Void => sanitize(t.cpp_type),
        IrTypeKind::Enum => "enum_"@ + sanitize(enum_base(t.cpp_type)),
        IrTypeKind::CString => if contains_seq(t.cpp_type, "const"@) || t.cpp_type == "NPCSTR"@
            || t.cpp_type == "NPSTRC"@ || t.cpp_type == "NPCSTRC"@ {
            "c_str"@
        } else {
            "mut_c_str"@
        },
        IrTypeKind::FixedByteArray => "byte_array_"@ + decimal(opt_len(byte_array_len(t.cpp_type))),
        IrTypeKind::String => "string"@,
        IrTypeKind::Pointer => "ptr_"@ + sanitize(trim_end_char(t.cpp_type, '*')),
        IrTypeKind::Reference => "ref_"@ + sanitize(trim_end_char(t.cpp_type, '&')),
        IrTypeKind::ExternStructPointer => "extern_ptr_"@ + sanitize(base_model(t.c_type)),
        IrTypeKind::ExternStructReference => "extern_ref_"@ + sanitize(base_model(t.c_type)),
        IrTypeKind::Opaque => "opaque_"@ + sanitize(base_model(t.cpp_type)),
        IrTypeKind::ModelReference => "model_ref_"@ + sanitize(base_model(t.cpp_type)),
        IrTypeKind::ModelPointer => "model_ptr_"@ + sanitize(base_model(t.cpp_type)),
        IrTypeKind::ModelValue => "model_value_"@ + sanitize(base_model(t.cpp_type)),
        IrTypeKind::Callback => "callback_"@ + sanitize(t.cpp_type),
        IrTypeKind::FixedArray => "array_"@ + decimal(
            match parse_array(t.cpp_type) {
                Some((_, n)) => n,
                None => 0,
            },
        ) + "_"@ + sanitize(
            match parse_array(t.cpp_type) {
                Some((e, _)) => e,
                None => "unknown"@,
            },
        ),
        IrTypeKind::FixedModelArray => "model_array_"@ + decimal(
            match parse_array(t.cpp_type) {
                Some((_, n)) => n,
                None => 0,
            },
        ) + "_"@ + sanitize(
            match t.handle {
                Some(h) => h,
                None => "unknown"@,
            },
        ),
    }
}

fn prefixed_token(prefix: &str, v: &[char]) -> (r: String)
    ensures
        r@ == prefix@ + sanitize(v@),
{
    let mut out = String::from_str(prefix);
    let s = sanitize_symbol_token_vec(v);
    push_chars(&mut out, s.as_slice());
    out
}

pub fn type_signature_token(ty: &IrType) -> (r: String)
    ensures
        r@ == sig_token(ty@),
{
    let cpp = chars_of(ty.cpp_type.as_str());
    match ty.kind {
        IrTypeKind::Primitive | IrTypeKind::Void => {
            let s = sanitize_symbol_token_vec(cpp.as_slice());
            string_of(s.as_slice())
        },
        IrTypeKind::Enum => {
            let b = enum_base_vec(cpp.as_slice());
            prefixed_token("enum_", b.as_slice())
        },
        IrTypeKind::CString => {
            let c = cpp.as_slice();
            if contains_lit(c, "const") || eq_lit(c, "NPCSTR") || eq_lit(c, "NPSTRC") || eq_lit(
                c,
                "NPCSTRC",
            ) {
                String::from_str("c_str")
            } else {
                String::from_str("mut_c_str")
            }
        },
        IrTypeKind::FixedByteArray => {
            let n = match byte_array_length(ty.cpp_type.as_str()) {
                Some(n) => n,
                None => 0,
            };
            let mut out = String::from_str("byte_array_");
            let d = decimal_vec(n);
            push_chars(&mut out, d.as_slice());
            out
        },
        IrTypeKind::String => String::from_str("string"),
        IrTypeKind::Pointer => {
            let b = trim_end_char_vec(cpp.as_slice(), '*');
            prefixed_token("ptr_", b.as_slice())
        },
        IrTypeKind::Reference => {
            let b = trim_end_char_vec(cpp.as_slice(), '&');
            prefixed_token("ref_", b.as_slice())
        },
        IrTypeKind::ExternStructPointer => {
            let c = chars_of(ty.c_type.as_str());
            let b = base_model_vec(c.as_slice());
            prefixed_token("extern_ptr_", b.as_slice())
        },
        IrTypeKind::ExternStructReference => {
            let c = chars_of(ty.c_type.as_str());
            let b = base_model_vec(c.as_slice());
            prefixed_token("extern_ref_", b.as_slice())
        },
        IrTypeKind::Opaque => {
            let b = base_model_vec(cpp.as_slice());
            prefixed_token("opaque_", b.as_slice())
        },
        IrTypeKind::ModelReference => {
            let b = base_model_vec(cpp.as_slice());
            prefixed_token("model_ref_", b.as_slice())
        },
        IrTypeKind::ModelPointer => {
            let b = base_model_vec(cpp.as_slice());
            prefixed_token("model_ptr_", b.as_slice())
        },
        IrTypeKind::ModelValue => {
            let b = base_model_vec(cpp.as_slice());
            prefixed_token("model_value_", b.as_slice())
        },
        IrTypeKind::Callback => prefixed_token("callback_", cpp.as_slice()),
        IrTypeKind::FixedArray => {
            let (n, elem) = match parse_array_vec(cpp.as_slice()) {
                Some((e, n)) => (n, e),
                None => (0, chars_of("unknown")),
            };
            let mut out = String::from_str("array_");
            let d = decimal_vec(n);
            push_chars(&mut out, d.as_slice());
            push_str(&mut out, "_");
            let s = sanitize_symbol_token_vec(elem.as_slice());
            push_chars(&mut out, s.as_slice());
            out
        },
        IrTypeKind::FixedModelArray => {
            let n: usize = match parse_array_vec(cpp.as_slice()) {
                Some((_, n)) => n,
                None => 0,
            };
            let h = match &ty.handle {
                Some(h) => chars_of(h.as_str()),
                None => chars_of("unknown"),
            };
            let mut out = String::from_str("model_array_");
            let d = decimal_vec(n);
            push_chars(&mut out, d.as_slice());
            push_str(&mut out, "_");
            let s = sanitize_symbol_token_vec(h.as_slice());
            push_chars(&mut out, s.as_slice());
            out
        },
    }
}

/// The parts of an overload suffix: one token per distinguishing parameter (`void` when
/// there are none), then `const` or `mut` for a method.
pub open spec fn suffix_parts(
    kind: IrFunctionKind,
    bound: bool,
    is_const: Option<bool>,
    ps: Seq<IrParamV>,
) -> Seq<Seq<char>> {
    let sp = signature_params(kind, bound, ps);
    let toks = if sp.len() == 0 {
        seq!["void"@]
    } else {
        sp.map_values(|p: IrParamV| sig_token(p.ty))
    };
    if kind == IrFunctionKind::Method {
        toks.push(
            if is_const == Some(true) {
                "const"@
            } else {
                "mut"@
            },
        )
    } else {
        toks
    }
}

pub open spec fn overload(f: IrFunctionKind, bound: bool, is_const: Option<bool>, ps: Seq<IrParamV>) -> Seq<char> {
    join(suffix_parts(f, bound, is_const, ps), "_"@)
}

/// The suffix that tells apart overloads sharing one C ABI symbol.
pub fn overload_suffix(function: &IrFunction) -> (r: String)
    requires
        function.method_of is Some && (function.kind == IrFunctionKind::Method || function.kind
            == IrFunctionKind::Destructor) ==> function.params.len() >= 1,
    ensures
        r@ == overload(
            function.kind,
            function.method_of is Some,
            function.is_const,
            params_view(function.params@),
        ),
{
    let bound = function.method_of.is_some() && (function.kind == IrFunctionKind::Method
        || function.kind == IrFunctionKind::Destructor);
    let start: usize = if bound {
        1
    } else {
        0
    };
    let ghost sp = signature_params(
        function.kind,
        function.method_of is Some,
        params_view(function.params@),
    );
    assert(sp =~= params_view(function.params@).skip(start as int));
    let mut parts: Vec<String> = Vec::new();
    if start >= function.params.len() {
        parts.push(String::from_str("void"));
        assert(views(parts@) =~= seq!["void"@]);
    } else {
        let mut i: usize = start;
        while i < function.params.len()
            invariant
                start <= i <= function.params.len(),
                sp =~= params_view(function.params@).skip(start as int),
                views(parts@) =~= sp.take(i - start).map_values(|p: IrParamV| sig_token(p.ty)),
            decreases function.params.len() - i,
        {
            let t = type_signature_token(&function.params[i].ty);
            let ghost before = parts@;
            parts.push(t);
            assert(views(parts@) =~= views(before).push(t@));
            assert(sp.take(i + 1 - start) =~= sp.take(i - start).push(sp[i - start]));
            i = i + 1;
        }
        assert(sp.take(i - start) =~= sp);
    }
    if function.kind == IrFunctionKind::Method {
        let ghost before = views(parts@);
        let q = if function.is_const == Some(true) {
            String::from_str("const")
        } else {
            String::from_str("mut")
        };
        parts.push(q);
        assert(views(parts@) =~= before.push(q@));
    }
    crate::text::join_strings(&parts, "_")
}

} // verus!
