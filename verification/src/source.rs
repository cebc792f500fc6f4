//! The generated C++ source: the definition of every wrapper function, which converts its
//! C arguments, calls into C++ and converts the result back.
use vstd::prelude::*;

use crate::assemble::{module_view, IrModuleV};
use crate::header::{
    bridge_params, delete_order, delete_symbol, has_callback_param, opaque_delete_symbol,
    param_decl, param_decls, param_list, returns_kind, synthetic_delete_handles, takes_callback,
    any_returns_kind,
};
use crate::context::PipelineContext;
use crate::gotypes::leaf;
use crate::ir::{
    functions_view, opt_view, params_view, strs, IrCallback, IrCallbackV, IrFieldAccessorV,
    IrFunction, IrFunctionV, IrModule, IrParam, IrParamV, IrType, IrTypeV,
};
use crate::kind::{FieldAccessKind, IrFunctionKind, IrTypeKind};
use crate::text::{
    chars_of, decimal, decimal_string, ends_with, eq_lit, join, parse_usize, push_chars,
    push_str, push_string, seq_eq, starts_with, starts_with_lit, string_of, strip_prefix,
    strip_prefix_lit, strip_suffix, strip_suffix_lit, trim, trim_end, trim_end_char,
    trim_end_char_vec, trim_end_index, trim_start_matches, trim_start_matches_lit, trim_vec,
};
use crate::types::{base_model, base_model_vec, ends_with_char, parse_array, parse_array_vec};

verus! {

// ---------------------------------------------------------------------------
// Arguments
// ---------------------------------------------------------------------------

/// The C/C++ primitive spellings that the generated source may name directly.
pub open spec fn generator_primitive(n: Seq<char>) -> bool {
    n == "bool"@ || n == "int"@ || n == "int8_t"@ || n == "int8"@ || n == "int16_t"@ || n
        == "int16"@ || n == "int32_t"@ || n == "int32"@ || n == "int64_t"@ || n == "int64"@ || n
        == "short"@ || n == "long"@ || n == "long long"@ || n == "float"@ || n == "double"@ || n
        == "size_t"@ || n == "uint8_t"@ || n == "uint8"@ || n == "uint16_t"@ || n == "uint16"@
        || n == "uint32_t"@ || n == "uint32"@ || n == "uint64_t"@ || n == "uint64"@ || n
        == "char"@ || n == "const char"@ || n == "unsigned"@ || n == "unsigned int"@ || n
        == "unsigned short"@ || n == "unsigned long"@ || n == "unsigned long long"@ || n
        == "signed char"@ || n == "unsigned char"@
}

pub fn generator_supported_primitive(n: &[char]) -> (b: bool)
    ensures
        b == generator_primitive(n@),
{
    eq_lit(n, "bool") || eq_lit(n, "int") || eq_lit(n, "int8_t") || eq_lit(n, "int8") || eq_lit(
        n,
        "int16_t",
    ) || eq_lit(n, "int16") || eq_lit(n, "int32_t") || eq_lit(n, "int32") || eq_lit(n, "int64_t")
        || eq_lit(n, "int64") || eq_lit(n, "short") || eq_lit(n, "long") || eq_lit(n, "long long")
        || eq_lit(n, "float") || eq_lit(n, "double") || eq_lit(n, "size_t") || eq_lit(n, "uint8_t")
        || eq_lit(n, "uint8") || eq_lit(n, "uint16_t") || eq_lit(n, "uint16") || eq_lit(
        n,
        "uint32_t",
    ) || eq_lit(n, "uint32") || eq_lit(n, "uint64_t") || eq_lit(n, "uint64") || eq_lit(n, "char")
        || eq_lit(n, "const char") || eq_lit(n, "unsigned") || eq_lit(n, "unsigned int") || eq_lit(
        n,
        "unsigned short",
    ) || eq_lit(n, "unsigned long") || eq_lit(n, "unsigned long long") || eq_lit(
        n,
        "signed char",
    ) || eq_lit(n, "unsigned char")
}

/// `s` without trailing `c`s, trimmed.
pub open spec fn bare(s: Seq<char>, c: char) -> Seq<char> {
    trim(trim_end_char(s, c))
}

fn bare_vec(s: &[char], c: char) -> (r: Vec<char>)
    ensures
        r@ == bare(s@, c),
{
    let t = trim_end_char_vec(s, c);
    trim_vec(t.as_slice())
}

/// The known primitive alias a pointer or reference argument is cast to, where its C++
/// spelling differs from its C one.
pub open spec fn alias_target(t: IrTypeV) -> Option<Seq<char>> {
    let cpp_base = if t.kind == IrTypeKind::Reference {
        bare(t.cpp_type, '&')
    } else {
        bare(t.cpp_type, '*')
    };
    if t.kind != IrTypeKind::Reference && t.kind != IrTypeKind::Pointer {
        None
    } else if generator_primitive(cpp_base) && cpp_base != bare(t.c_type, '*') {
        Some(cpp_base)
    } else {
        None
    }
}

fn primitive_alias_cast_target(t: &IrType) -> (r: Option<Vec<char>>)
    ensures
        match alias_target(t@) {
            Some(a) => r is Some && r->0@ == a,
            None => r is None,
        },
{
    if t.kind != IrTypeKind::Reference && t.kind != IrTypeKind::Pointer {
        return None;
    }
    let cpp = chars_of(t.cpp_type.as_str());
    let cpp_base = if t.kind == IrTypeKind::Reference {
        bare_vec(cpp.as_slice(), '&')
    } else {
        bare_vec(cpp.as_slice(), '*')
    };
    let c = chars_of(t.c_type.as_str());
    let c_base = bare_vec(c.as_slice(), '*');
    if generator_supported_primitive(cpp_base.as_slice()) && !seq_eq(
        cpp_base.as_slice(),
        c_base.as_slice(),
    ) {
        Some(cpp_base)
    } else {
        None
    }
}

/// The C++ type a model handle points at; a trailing ` const` moves to the front.
pub open spec fn qualified_model(t: IrTypeV) -> Seq<char> {
    let base = trim(trim_end_char(trim_end_char(trim(t.cpp_type), '&'), '*'));
    match strip_suffix(base, " const"@) {
        Some(inner) => "const "@ + trim(inner),
        None => base,
    }
}

fn qualified_model_cpp_type(t: &IrType) -> (r: String)
    ensures
        r@ == qualified_model(t@),
{
    let v = chars_of(t.cpp_type.as_str());
    let a = trim_vec(v.as_slice());
    let b = trim_end_char_vec(a.as_slice(), '&');
    let c = trim_end_char_vec(b.as_slice(), '*');
    let base = trim_vec(c.as_slice());
    match strip_suffix_lit(base.as_slice(), " const") {
        Some(inner) => {
            let mut out = String::from_str("const ");
            let t = trim_vec(inner.as_slice());
            push_chars(&mut out, t.as_slice());
            out
        },
        None => string_of(base.as_slice()),
    }
}

/// `*reinterpret_cast<T*>(name)` for the model type `T` behind a handle.
pub open spec fn deref_cast(t: IrTypeV, name: Seq<char>) -> Seq<char> {
    "*reinterpret_cast<"@ + qualified_model(t) + "*>("@ + name + ")"@
}

fn render_model_deref_cast(t: &IrType, name: &str) -> (r: String)
    ensures
        r@ == deref_cast(t@, name@),
{
    let q = qualified_model_cpp_type(t);
    let mut out = String::from_str("*reinterpret_cast<");
    push_string(&mut out, &q);
    push_str(&mut out, "*>(");
    push_str(&mut out, name);
    push_str(&mut out, ")");
    out
}

pub open spec fn star_count(s: Seq<char>) -> nat
    decreases s.len(),
{
    if s.len() == 0 {
        0
    } else {
        star_count(s.drop_last()) + (if s.last() == '*' {
            1nat
        } else {
            0nat
        })
    }
}

pub open spec fn stars(n: nat) -> Seq<char> {
    Seq::new(n, |i: int| '*')
}

/// How an argument named `name` of type `t` is passed on to C++.
pub open spec fn cpp_arg(t: IrTypeV, name: Seq<char>) -> Seq<char> {
    match t.kind {
        IrTypeKind::Enum => "static_cast<"@ + trim(t.cpp_type) + ">("@ + name + ")"@,
        IrTypeKind::Primitive => if t.cpp_type != t.c_type {
            "static_cast<"@ + (if generator_primitive(t.cpp_type) {
                t.cpp_type
            } else {
                t.c_type
            }) + ">("@ + name + ")"@
        } else {
            name
        },
        IrTypeKind::String => "std::string("@ + name + " != nullptr ? "@ + name + " : \"\")"@,
        IrTypeKind::Reference => match alias_target(t) {
            Some(a) => "*reinterpret_cast<"@ + a + "*>("@ + name + ")"@,
            None => if !generator_primitive(bare(t.cpp_type, '&')) && generator_primitive(
                bare(t.c_type, '*'),
            ) {
                "*reinterpret_cast<"@ + bare(t.c_type, '*') + "*>("@ + name + ")"@
            } else {
                "*"@ + name
            },
        },
        IrTypeKind::Pointer => match alias_target(t) {
            Some(a) => "reinterpret_cast<"@ + a + "*>("@ + name + ")"@,
            None => name,
        },
        IrTypeKind::ExternStructReference => "*"@ + name,
        IrTypeKind::ModelReference => deref_cast(t, name),
        IrTypeKind::ModelValue => deref_cast(t, name),
        IrTypeKind::ModelPointer => {
            let n = star_count(t.cpp_type);
            "reinterpret_cast<"@ + qualified_model(t) + stars(if n == 0 {
                1nat
            } else {
                n
            }) + ">("@ + name + ")"@
        },
        _ => name,
    }
}

fn count_stars(s: &[char]) -> (n: usize)
    ensures
        n == star_count(s@),
{
    let mut n: usize = 0;
    let mut i: usize = 0;
    while i < s.len()
        invariant
            i <= s.len(),
            n == star_count(s@.take(i as int)),
            n <= i,
        decreases s.len() - i,
    {
        assert(s@.take(i + 1).drop_last() =~= s@.take(i as int));
        if s[i] == '*' {
            n = n + 1;
        }
        i = i + 1;
    }
    assert(s@.take(i as int) =~= s@);
    n
}

fn push_stars(out: &mut String, n: usize)
    ensures
        final(out)@ == old(out)@ + stars(n as nat),
{
    let ghost start = out@;
    let mut i: usize = 0;
    while i < n
        invariant
            i <= n,
            out@ =~= start + stars(i as nat),
        decreases n - i,
    {
        crate::text::push_one(out, '*');
        i = i + 1;
    }
}

/// The C++ expression that passes the C argument `name` of type `ty`.
pub fn render_cpp_arg(ty: &IrType, name: &str) -> (r: String)
    ensures
        r@ == cpp_arg(ty@, name@),
{
    let mut out = String::new();
    match ty.kind {
        IrTypeKind::Enum => {
            push_str(&mut out, "static_cast<");
            let t = trim_vec(chars_of(ty.cpp_type.as_str()).as_slice());
            push_chars(&mut out, t.as_slice());
            push_str(&mut out, ">(");
            push_str(&mut out, name);
            push_str(&mut out, ")");
        },
        IrTypeKind::Primitive => {
            let cpp = chars_of(ty.cpp_type.as_str());
            let c = chars_of(ty.c_type.as_str());
            if !seq_eq(cpp.as_slice(), c.as_slice()) {
                push_str(&mut out, "static_cast<");
                if generator_supported_primitive(cpp.as_slice()) {
                    push_string(&mut out, &ty.cpp_type);
                } else {
                    push_string(&mut out, &ty.c_type);
                }
                push_str(&mut out, ">(");
                push_str(&mut out, name);
                push_str(&mut out, ")");
            } else {
                push_str(&mut out, name);
            }
        },
        IrTypeKind::String => {
            push_str(&mut out, "std::string(");
            push_str(&mut out, name);
            push_str(&mut out, " != nullptr ? ");
            push_str(&mut out, name);
            push_str(&mut out, " : \"\")");
        },
        IrTypeKind::Reference => match primitive_alias_cast_target(ty) {
            Some(a) => {
                push_str(&mut out, "*reinterpret_cast<");
                push_chars(&mut out, a.as_slice());
                push_str(&mut out, "*>(");
                push_str(&mut out, name);
                push_str(&mut out, ")");
            },
            None => {
                let cpp_base = bare_vec(chars_of(ty.cpp_type.as_str()).as_slice(), '&');
                let c_base = bare_vec(chars_of(ty.c_type.as_str()).as_slice(), '*');
                if !generator_supported_primitive(cpp_base.as_slice())
                    && generator_supported_primitive(c_base.as_slice()) {
                    push_str(&mut out, "*reinterpret_cast<");
                    push_chars(&mut out, c_base.as_slice());
                    push_str(&mut out, "*>(");
                    push_str(&mut out, name);
                    push_str(&mut out, ")");
                } else {
                    push_str(&mut out, "*");
                    push_str(&mut out, name);
                }
            },
        },
        IrTypeKind::Pointer => match primitive_alias_cast_target(ty) {
            Some(a) => {
                push_str(&mut out, "reinterpret_cast<");
                push_chars(&mut out, a.as_slice());
                push_str(&mut out, "*>(");
                push_str(&mut out, name);
                push_str(&mut out, ")");
            },
            None => push_str(&mut out, name),
        },
        IrTypeKind::ExternStructReference => {
            push_str(&mut out, "*");
            push_str(&mut out, name);
        },
        IrTypeKind::ModelReference | IrTypeKind::ModelValue => {
            let d = render_model_deref_cast(ty, name);
            push_string(&mut out, &d);
        },
        IrTypeKind::ModelPointer => {
            let q = qualified_model_cpp_type(ty);
            let n = count_stars(chars_of(ty.cpp_type.as_str()).as_slice());
            push_str(&mut out, "reinterpret_cast<");
            push_string(&mut out, &q);
            push_stars(&mut out, if n == 0 {
                1
            } else {
                n
            });
            push_str(&mut out, ">(");
            push_str(&mut out, name);
            push_str(&mut out, ")");
        },
        _ => push_str(&mut out, name),
    }
    out
}

pub open spec fn arg_list(ps: Seq<IrParamV>) -> Seq<Seq<char>> {
    ps.map_values(|p: IrParamV| cpp_arg(p.ty, p.name))
}

/// The C++ call arguments from the parameters after the first `start`, joined by `, `.
pub open spec fn call_args(f: IrFunctionV, start: int) -> Seq<char> {
    join(arg_list(f.params.skip(start)), ", "@)
}

pub fn render_call_args(function: &IrFunction, start: usize) -> (r: String)
    requires
        start <= function.params@.len(),
    ensures
        r@ == call_args(function@, start as int),
{
    let ghost ps = function@.params.skip(start as int);
    let ghost args = arg_list(ps);
    let mut out = String::new();
    let mut i: usize = start;
    assert(args.take(0) =~= Seq::<Seq<char>>::empty());
    while i < function.params.len()
        invariant
            start <= i <= function.params.len(),
            ps == function@.params.skip(start as int),
            args == arg_list(ps),
            out@ == join(args.take(i - start), ", "@),
        decreases function.params.len() - i,
    {
        let p = &function.params[i];
        assert(ps[i - start] == p@);
        let a = render_cpp_arg(&p.ty, p.name.as_str());
        if i > start {
            push_str(&mut out, ", ");
            assert(args.take(i - start + 1).drop_last() =~= args.take(i - start));
        } else {
            assert(args.take(1) =~= seq![args[0]]);
        }
        push_string(&mut out, &a);
        i = i + 1;
    }
    assert(args.take(i - start) =~= args);
    out
}

// ---------------------------------------------------------------------------
// Bodies
// ---------------------------------------------------------------------------

/// The element type of a C array spelled `T*`: `T` without the stars, trimmed.
pub open spec fn c_elem(c_type: Seq<char>) -> Seq<char> {
    bare(c_type, '*')
}

/// The C++ element type of a fixed model array, as a bare model type.
pub open spec fn model_array_elem(cpp_type: Seq<char>) -> Seq<char> {
    match parse_array(cpp_type) {
        Some((e, _)) => base_model(e),
        None => base_model(cpp_type),
    }
}

pub open spec fn array_len_text(cpp_type: Seq<char>) -> Seq<char> {
    match parse_array(cpp_type) {
        Some((_, n)) => decimal(n),
        None => "0"@,
    }
}

pub open spec fn handle_text(h: Option<Seq<char>>) -> Seq<char> {
    match h {
        Some(x) => x,
        None => seq![],
    }
}

/// A model value returned by C++: copied into a new heap object (a null pointer result
/// stays null).
pub open spec fn model_value_return(f: IrFunctionV, target: Seq<char>, args: Seq<char>) -> Seq<char> {
    let base = base_model(f.returns.cpp_type);
    if ends_with(trim_end(f.returns.cpp_type), "*"@) {
        "    auto result = "@ + target + "("@ + args
            + ");\n    if (result == nullptr) {\n        return nullptr;\n    }\n    return reinterpret_cast<"@
            + f.returns.c_type + ">(new "@ + base + "(*result));\n"@
    } else {
        "    return reinterpret_cast<"@ + f.returns.c_type + ">(new "@ + base + "("@ + target + "("@
            + args + ")));\n"@
    }
}

/// The body that calls `target` with `args` and converts its result for C.
pub open spec fn callable_body(f: IrFunctionV, target: Seq<char>, args: Seq<char>) -> Seq<char> {
    let c = f.returns.c_type;
    match f.returns.kind {
        IrTypeKind::Void => "    "@ + target + "("@ + args + ");\n"@,
        IrTypeKind::Enum => "    return static_cast<"@ + c + ">("@ + target + "("@ + args + "));\n"@,
        IrTypeKind::String => "    std::string result = "@ + target + "("@ + args
            + ");\n    char* buffer = static_cast<char*>(std::malloc(result.size() + 1));\n    if (buffer == nullptr) {\n        return nullptr;\n    }\n    std::memcpy(buffer, result.c_str(), result.size() + 1);\n    return buffer;\n"@,
        IrTypeKind::FixedByteArray => "    auto _tmp = "@ + target + "("@ + args
            + ");\n    uint8_t* _r = static_cast<uint8_t*>(std::malloc(sizeof(_tmp)));\n    if (_r == nullptr) {\n        return nullptr;\n    }\n    std::memcpy(_r, &_tmp, sizeof(_tmp));\n    return _r;\n"@,
        IrTypeKind::FixedArray => "    auto _tmp = "@ + target + "("@ + args + ");\n    "@ + c_elem(c)
            + "* _r = static_cast<"@ + c_elem(c)
            + "*>(std::malloc(sizeof(_tmp)));\n    if (_r == nullptr) {\n        return nullptr;\n    }\n    std::memcpy(_r, &_tmp, sizeof(_tmp));\n    return _r;\n"@,
        IrTypeKind::FixedModelArray => {
            let h = handle_text(f.returns.handle);
            let n = array_len_text(f.returns.cpp_type);
            "    auto _tmp = "@ + target + "("@ + args + ");\n    "@ + h + "** _r = static_cast<"@ + h
                + "**>(std::malloc("@ + n + " * sizeof("@ + h
                + "*)));\n    if (_r == nullptr) {\n        return nullptr;\n    }\n    for (int _i = 0; _i < "@
                + n + "; _i++) {\n        _r[_i] = reinterpret_cast<"@ + h + "*>(new "@
                + model_array_elem(f.returns.cpp_type) + "(_tmp[_i]));\n    }\n    return _r;\n"@
        },
        IrTypeKind::ModelReference => "    return reinterpret_cast<"@ + c + ">(&"@ + target + "("@
            + args + "));\n"@,
        IrTypeKind::ModelValue => model_value_return(f, target, args),
        _ => if f.returns.handle is Some {
            "    return reinterpret_cast<"@ + c + ">("@ + target + "("@ + args + "));\n"@
        } else {
            "    return "@ + target + "("@ + args + ");\n"@
        },
    }
}

fn render_c_elem(c_type: &String) -> (r: Vec<char>)
    ensures
        r@ == c_elem(c_type@),
{
    bare_vec(chars_of(c_type.as_str()).as_slice(), '*')
}

fn render_model_array_elem(cpp_type: &String) -> (r: Vec<char>)
    ensures
        r@ == model_array_elem(cpp_type@),
{
    let v = chars_of(cpp_type.as_str());
    match parse_array_vec(v.as_slice()) {
        Some((e, _)) => base_model_vec(e.as_slice()),
        None => base_model_vec(v.as_slice()),
    }
}

fn render_array_len(cpp_type: &String) -> (r: String)
    ensures
        r@ == array_len_text(cpp_type@),
{
    let v = chars_of(cpp_type.as_str());
    match parse_array_vec(v.as_slice()) {
        Some((_, n)) => decimal_string(n),
        None => String::from_str("0"),
    }
}

fn push_handle(out: &mut String, h: &Option<String>)
    ensures
        final(out)@ == old(out)@ + handle_text(opt_view(*h)),
{
    match h {
        Some(x) => push_string(out, x),
        None => assert(out@ + Seq::<char>::empty() =~= out@),
    }
}

fn render_model_value_return(function: &IrFunction, target: &str, args: &str) -> (r: String)
    ensures
        r@ == model_value_return(function@, target@, args@),
{
    let cpp = chars_of(function.returns.cpp_type.as_str());
    let base = base_model_vec(cpp.as_slice());
    let j = trim_end_index(cpp.as_slice());
    let trimmed = crate::text::slice_vec(cpp.as_slice(), 0, j);
    proof {
        reveal_strlit("*");
        assert("*"@ =~= seq!['*']);
    }
    let mut out = String::new();
    if ends_with_char(trimmed.as_slice(), '*') {
        push_str(&mut out, "    auto result = ");
        push_str(&mut out, target);
        push_str(&mut out, "(");
        push_str(&mut out, args);
        push_str(
            &mut out,
            ");\n    if (result == nullptr) {\n        return nullptr;\n    }\n    return reinterpret_cast<",
        );
        push_string(&mut out, &function.returns.c_type);
        push_str(&mut out, ">(new ");
        push_chars(&mut out, base.as_slice());
        push_str(&mut out, "(*result));\n");
    } else {
        push_str(&mut out, "    return reinterpret_cast<");
        push_string(&mut out, &function.returns.c_type);
        push_str(&mut out, ">(new ");
        push_chars(&mut out, base.as_slice());
        push_str(&mut out, "(");
        push_str(&mut out, target);
        push_str(&mut out, "(");
        push_str(&mut out, args);
        push_str(&mut out, ")));\n");
    }
    out
}

fn render_callable_body(function: &IrFunction, target: &str, start: usize) -> (r: String)
    requires
        start <= function.params@.len(),
    ensures
        r@ == callable_body(function@, target@, call_args(function@, start as int)),
{
    let args_s = render_call_args(function, start);
    let args = args_s.as_str();
    let c = &function.returns.c_type;
    let mut out = String::new();
    match function.returns.kind {
        IrTypeKind::Void => {
            push_str(&mut out, "    ");
            push_str(&mut out, target);
            push_str(&mut out, "(");
            push_str(&mut out, args);
            push_str(&mut out, ");\n");
        },
        IrTypeKind::Enum => {
            push_str(&mut out, "    return static_cast<");
            push_string(&mut out, c);
            push_str(&mut out, ">(");
            push_str(&mut out, target);
            push_str(&mut out, "(");
            push_str(&mut out, args);
            push_str(&mut out, "));\n");
        },
        IrTypeKind::String => {
            push_str(&mut out, "    std::string result = ");
            push_str(&mut out, target);
            push_str(&mut out, "(");
            push_str(&mut out, args);
            push_str(
                &mut out,
                ");\n    char* buffer = static_cast<char*>(std::malloc(result.size() + 1));\n    if (buffer == nullptr) {\n        return nullptr;\n    }\n    std::memcpy(buffer, result.c_str(), result.size() + 1);\n    return buffer;\n",
            );
        },
        IrTypeKind::FixedByteArray => {
            push_str(&mut out, "    auto _tmp = ");
            push_str(&mut out, target);
            push_str(&mut out, "(");
            push_str(&mut out, args);
            push_str(
                &mut out,
                ");\n    uint8_t* _r = static_cast<uint8_t*>(std::malloc(sizeof(_tmp)));\n    if (_r == nullptr) {\n        return nullptr;\n    }\n    std::memcpy(_r, &_tmp, sizeof(_tmp));\n    return _r;\n",
            );
        },
        IrTypeKind::FixedArray => {
            let e = render_c_elem(c);
            push_str(&mut out, "    auto _tmp = ");
            push_str(&mut out, target);
            push_str(&mut out, "(");
            push_str(&mut out, args);
            push_str(&mut out, ");\n    ");
            push_chars(&mut out, e.as_slice());
            push_str(&mut out, "* _r = static_cast<");
            push_chars(&mut out, e.as_slice());
            push_str(
                &mut out,
                "*>(std::malloc(sizeof(_tmp)));\n    if (_r == nullptr) {\n        return nullptr;\n    }\n    std::memcpy(_r, &_tmp, sizeof(_tmp));\n    return _r;\n",
            );
        },
        IrTypeKind::FixedModelArray => {
            let n = render_array_len(&function.returns.cpp_type);
            let base = render_model_array_elem(&function.returns.cpp_type);
            let h = &function.returns.handle;
            push_str(&mut out, "    auto _tmp = ");
            push_str(&mut out, target);
            push_str(&mut out, "(");
            push_str(&mut out, args);
            push_str(&mut out, ");\n    ");
            push_handle(&mut out, h);
            push_str(&mut out, "** _r = static_cast<");
            push_handle(&mut out, h);
            push_str(&mut out, "**>(std::malloc(");
            push_string(&mut out, &n);
            push_str(&mut out, " * sizeof(");
            push_handle(&mut out, h);
            push_str(
                &mut out,
                "*)));\n    if (_r == nullptr) {\n        return nullptr;\n    }\n    for (int _i = 0; _i < ",
            );
            push_string(&mut out, &n);
            push_str(&mut out, "; _i++) {\n        _r[_i] = reinterpret_cast<");
            push_handle(&mut out, h);
            push_str(&mut out, "*>(new ");
            push_chars(&mut out, base.as_slice());
            push_str(&mut out, "(_tmp[_i]));\n    }\n    return _r;\n");
        },
        IrTypeKind::ModelReference => {
            push_str(&mut out, "    return reinterpret_cast<");
            push_string(&mut out, c);
            push_str(&mut out, ">(&");
            push_str(&mut out, target);
            push_str(&mut out, "(");
            push_str(&mut out, args);
            push_str(&mut out, "));\n");
        },
        IrTypeKind::ModelValue => {
            out = render_model_value_return(function, target, args);
        },
        _ => {
            if function.returns.handle.is_some() {
                push_str(&mut out, "    return reinterpret_cast<");
                push_string(&mut out, c);
                push_str(&mut out, ">(");
                push_str(&mut out, target);
                push_str(&mut out, "(");
                push_str(&mut out, args);
                push_str(&mut out, "));\n");
            } else {
                push_str(&mut out, "    return ");
                push_str(&mut out, target);
                push_str(&mut out, "(");
                push_str(&mut out, args);
                push_str(&mut out, ");\n");
            }
        },
    }
    out
}

/// `r->f`
pub open spec fn member(r: Seq<char>, f: Seq<char>) -> Seq<char> {
    r + "->"@ + f
}

/// The body of a field getter reading `receiver->field`.
pub open spec fn field_getter_body(f: IrFunctionV, receiver: Seq<char>, field: Seq<char>) -> Seq<char> {
    let c = f.returns.c_type;
    let m = member(receiver, field);
    match f.returns.kind {
        IrTypeKind::Enum => "    return static_cast<"@ + c + ">("@ + m + ");\n"@,
        IrTypeKind::FixedByteArray => "    uint8_t* _r = static_cast<uint8_t*>(std::malloc(sizeof("@ + m
            + ")));\n    if (_r == nullptr) {\n        return nullptr;\n    }\n    std::memcpy(_r, "@ + m
            + ", sizeof("@ + m + "));\n    return _r;\n"@,
        IrTypeKind::FixedArray => "    "@ + c_elem(c) + "* _r = static_cast<"@ + c_elem(c)
            + "*>(std::malloc(sizeof("@ + m
            + ")));\n    if (_r == nullptr) {\n        return nullptr;\n    }\n    std::memcpy(_r, "@ + m
            + ", sizeof("@ + m + "));\n    return _r;\n"@,
        IrTypeKind::FixedModelArray => {
            let h = handle_text(f.returns.handle);
            let n = array_len_text(f.returns.cpp_type);
            "    "@ + h + "** _r = static_cast<"@ + h + "**>(std::malloc("@ + n + " * sizeof("@ + h
                + "*)));\n    if (_r == nullptr) {\n        return nullptr;\n    }\n    for (int _i = 0; _i < "@
                + n + "; _i++) {\n        _r[_i] = reinterpret_cast<"@ + h + "*>(const_cast<"@
                + model_array_elem(f.returns.cpp_type) + "*>(&"@ + m
                + "[_i]));\n    }\n    return _r;\n"@
        },
        IrTypeKind::ModelPointer => "    return reinterpret_cast<"@ + c + ">(&"@ + m + ");\n"@,
        IrTypeKind::ModelReference => "    return reinterpret_cast<"@ + c + ">(&"@ + m + ");\n"@,
        IrTypeKind::ModelValue => "    return reinterpret_cast<"@ + c + ">(new "@ + base_model(
            f.returns.cpp_type,
        ) + "("@ + m + "));\n"@,
        _ => "    return "@ + m + ";\n"@,
    }
}

fn push_member(out: &mut String, receiver: &str, field: &String)
    ensures
        final(out)@ == old(out)@ + member(receiver@, field@),
{
    push_str(out, receiver);
    push_str(out, "->");
    push_string(out, field);
}

fn render_field_getter_body(function: &IrFunction, receiver: &str, field: &String) -> (r: String)
    ensures
        r@ == field_getter_body(function@, receiver@, field@),
{
    let c = &function.returns.c_type;
    let mut out = String::new();
    match function.returns.kind {
        IrTypeKind::Enum => {
            push_str(&mut out, "    return static_cast<");
            push_string(&mut out, c);
            push_str(&mut out, ">(");
            push_member(&mut out, receiver, field);
            push_str(&mut out, ");\n");
        },
        IrTypeKind::FixedByteArray => {
            push_str(&mut out, "    uint8_t* _r = static_cast<uint8_t*>(std::malloc(sizeof(");
            push_member(&mut out, receiver, field);
            push_str(
                &mut out,
                ")));\n    if (_r == nullptr) {\n        return nullptr;\n    }\n    std::memcpy(_r, ",
            );
            push_member(&mut out, receiver, field);
            push_str(&mut out, ", sizeof(");
            push_member(&mut out, receiver, field);
            push_str(&mut out, "));\n    return _r;\n");
        },
        IrTypeKind::FixedArray => {
            let e = render_c_elem(c);
            push_str(&mut out, "    ");
            push_chars(&mut out, e.as_slice());
            push_str(&mut out, "* _r = static_cast<");
            push_chars(&mut out, e.as_slice());
            push_str(&mut out, "*>(std::malloc(sizeof(");
            push_member(&mut out, receiver, field);
            push_str(
                &mut out,
                ")));\n    if (_r == nullptr) {\n        return nullptr;\n    }\n    std::memcpy(_r, ",
            );
            push_member(&mut out, receiver, field);
            push_str(&mut out, ", sizeof(");
            push_member(&mut out, receiver, field);
            push_str(&mut out, "));\n    return _r;\n");
        },
        IrTypeKind::FixedModelArray => {
            let n = render_array_len(&function.returns.cpp_type);
            let base = render_model_array_elem(&function.returns.cpp_type);
            let h = &function.returns.handle;
            push_str(&mut out, "    ");
            push_handle(&mut out, h);
            push_str(&mut out, "** _r = static_cast<");
            push_handle(&mut out, h);
            push_str(&mut out, "**>(std::malloc(");
            push_string(&mut out, &n);
            push_str(&mut out, " * sizeof(");
            push_handle(&mut out, h);
            push_str(
                &mut out,
                "*)));\n    if (_r == nullptr) {\n        return nullptr;\n    }\n    for (int _i = 0; _i < ",
            );
            push_string(&mut out, &n);
            push_str(&mut out, "; _i++) {\n        _r[_i] = reinterpret_cast<");
            push_handle(&mut out, h);
            push_str(&mut out, "*>(const_cast<");
            push_chars(&mut out, base.as_slice());
            push_str(&mut out, "*>(&");
            push_member(&mut out, receiver, field);
            push_str(&mut out, "[_i]));\n    }\n    return _r;\n");
        },
        IrTypeKind::ModelPointer | IrTypeKind::ModelReference => {
            push_str(&mut out, "    return reinterpret_cast<");
            push_string(&mut out, c);
            push_str(&mut out, ">(&");
            push_member(&mut out, receiver, field);
            push_str(&mut out, ");\n");
        },
        IrTypeKind::ModelValue => {
            let base = base_model_vec(chars_of(function.returns.cpp_type.as_str()).as_slice());
            push_str(&mut out, "    return reinterpret_cast<");
            push_string(&mut out, c);
            push_str(&mut out, ">(new ");
            push_chars(&mut out, base.as_slice());
            push_str(&mut out, "(");
            push_member(&mut out, receiver, field);
            push_str(&mut out, "));\n");
        },
        _ => {
            push_str(&mut out, "    return ");
            push_member(&mut out, receiver, field);
            push_str(&mut out, ";\n");
        },
    }
    out
}

/// The length `N` of a `char[N]` type (possibly behind `const `).
pub open spec fn char_array_len(cpp_type: Seq<char>) -> Option<nat> {
    let t = trim(trim_start_matches(trim(cpp_type), "const "@));
    match strip_prefix(t, "char["@) {
        Some(p) => match strip_suffix(p, "]"@) {
            Some(l) => parse_usize(l),
            None => None,
        },
        None => None,
    }
}

fn char_array_length(cpp_type: &String) -> (r: Option<usize>)
    ensures
        match char_array_len(cpp_type@) {
            Some(n) => r == Some(n as usize),
            None => r is None,
        },
{
    let v = chars_of(cpp_type.as_str());
    let a = trim_vec(v.as_slice());
    let b = trim_start_matches_lit(a.as_slice(), "const ");
    let t = trim_vec(b.as_slice());
    let p = match strip_prefix_lit(t.as_slice(), "char[") {
        Some(p) => p,
        None => return None,
    };
    let l = match strip_suffix_lit(p.as_slice(), "]") {
        Some(l) => l,
        None => return None,
    };
    crate::text::parse_usize_exec(l.as_slice())
}

pub open spec fn param_name_or(ps: Seq<IrParamV>, i: int, default: Seq<char>) -> Seq<char> {
    if i < ps.len() {
        ps[i].name
    } else {
        default
    }
}

/// The body of a field setter writing `receiver->field` from `value`.
pub open spec fn field_setter_body(f: IrFunctionV, receiver: Seq<char>, field: Seq<char>) -> Seq<char> {
    let m = member(receiver, field);
    let plain = "    "@ + m + " = value;\n"@;
    if f.params.len() < 2 {
        plain
    } else {
        let vt = f.params[1].ty;
        match vt.kind {
            IrTypeKind::Enum => "    "@ + m + " = static_cast<"@ + vt.cpp_type + ">(value);\n"@,
            IrTypeKind::CString => match char_array_len(vt.cpp_type) {
                None => plain,
                Some(len) => {
                    let k = decimal(if len == 0 {
                        0nat
                    } else {
                        (len - 1) as nat
                    });
                    "    if (value == nullptr) {\n        "@ + m
                        + "[0] = '\\0';\n        return;\n    }\n    std::strncpy("@ + m + ", value, "@ + k
                        + ");\n    "@ + m + "["@ + k + "] = '\\0';\n"@
                },
            },
            IrTypeKind::FixedByteArray => "    if (value == nullptr) {\n        return;\n    }\n    std::memcpy("@
                + m + ", value, sizeof("@ + m + "));\n"@,
            IrTypeKind::FixedArray => "    if (value == nullptr) {\n        return;\n    }\n    std::memcpy("@
                + m + ", value, sizeof("@ + m + "));\n"@,
            IrTypeKind::FixedModelArray => "    if (value == nullptr) {\n        return;\n    }\n    for (int _i = 0; _i < "@
                + array_len_text(vt.cpp_type) + "; _i++) {\n        "@ + m
                + "[_i] = *reinterpret_cast<"@ + model_array_elem(vt.cpp_type) + "*>(value[_i]);\n    }\n"@,
            IrTypeKind::ModelValue => "    "@ + m + " = "@ + deref_cast(vt, "value"@) + ";\n"@,
            _ => plain,
        }
    }
}

fn render_field_setter_body(function: &IrFunction, receiver: &str, field: &String) -> (r: String)
    ensures
        r@ == field_setter_body(function@, receiver@, field@),
{
    let mut out = String::new();
    if function.params.len() < 2 {
        push_str(&mut out, "    ");
        push_member(&mut out, receiver, field);
        push_str(&mut out, " = value;\n");
        return out;
    }
    let vt = &function.params[1].ty;
    match vt.kind {
        IrTypeKind::Enum => {
            push_str(&mut out, "    ");
            push_member(&mut out, receiver, field);
            push_str(&mut out, " = static_cast<");
            push_string(&mut out, &vt.cpp_type);
            push_str(&mut out, ">(value);\n");
        },
        IrTypeKind::CString => match char_array_length(&vt.cpp_type) {
            None => {
                push_str(&mut out, "    ");
                push_member(&mut out, receiver, field);
                push_str(&mut out, " = value;\n");
            },
            Some(len) => {
                let k = decimal_string(if len == 0 {
                    0
                } else {
                    len - 1
                });
                push_str(&mut out, "    if (value == nullptr) {\n        ");
                push_member(&mut out, receiver, field);
                push_str(&mut out, "[0] = '\\0';\n        return;\n    }\n    std::strncpy(");
                push_member(&mut out, receiver, field);
                push_str(&mut out, ", value, ");
                push_string(&mut out, &k);
                push_str(&mut out, ");\n    ");
                push_member(&mut out, receiver, field);
                push_str(&mut out, "[");
                push_string(&mut out, &k);
                push_str(&mut out, "] = '\\0';\n");
            },
        },
        IrTypeKind::FixedByteArray | IrTypeKind::FixedArray => {
            push_str(&mut out, "    if (value == nullptr) {\n        return;\n    }\n    std::memcpy(");
            push_member(&mut out, receiver, field);
            push_str(&mut out, ", value, sizeof(");
            push_member(&mut out, receiver, field);
            push_str(&mut out, "));\n");
        },
        IrTypeKind::FixedModelArray => {
            let n = render_array_len(&vt.cpp_type);
            let base = render_model_array_elem(&vt.cpp_type);
            push_str(
                &mut out,
                "    if (value == nullptr) {\n        return;\n    }\n    for (int _i = 0; _i < ",
            );
            push_string(&mut out, &n);
            push_str(&mut out, "; _i++) {\n        ");
            push_member(&mut out, receiver, field);
            push_str(&mut out, "[_i] = *reinterpret_cast<");
            push_chars(&mut out, base.as_slice());
            push_str(&mut out, "*>(value[_i]);\n    }\n");
        },
        IrTypeKind::ModelValue => {
            let d = render_model_deref_cast(vt, "value");
            push_str(&mut out, "    ");
            push_member(&mut out, receiver, field);
            push_str(&mut out, " = ");
            push_string(&mut out, &d);
            push_str(&mut out, ";\n");
        },
        _ => {
            push_str(&mut out, "    ");
            push_member(&mut out, receiver, field);
            push_str(&mut out, " = value;\n");
        },
    }
    out
}

pub open spec fn array_len_of(a: IrFieldAccessorV) -> Seq<char> {
    decimal(match a.array_len {
        Some(n) => n as nat,
        None => 0nat,
    })
}

/// The body of an indexed getter returning a handle to `receiver->field[index]`, null
/// when the receiver is null or the index out of range.
pub open spec fn indexed_getter_body(f: IrFunctionV, a: IrFieldAccessorV, receiver: Seq<char>) -> Seq<char> {
    let idx = param_name_or(f.params, 1, "index"@);
    let c = f.returns.c_type;
    let elem = member(receiver, a.field_name) + "["@ + idx + "]"@;
    let cast = if starts_with(c, "const "@) {
        "reinterpret_cast<"@ + c + ">(&"@ + elem + ")"@
    } else {
        "reinterpret_cast<"@ + c + ">(const_cast<"@ + base_model(f.returns.cpp_type) + "*>(&"@ + elem
            + "))"@
    };
    "    if (self == nullptr || "@ + idx + " < 0 || "@ + idx + " >= "@ + array_len_of(a)
        + ") {\n        return nullptr;\n    }\n    return "@ + cast + ";\n"@
}

/// The body of an indexed setter copying `*value` into `receiver->field[index]`.
pub open spec fn indexed_setter_body(f: IrFunctionV, a: IrFieldAccessorV, receiver: Seq<char>) -> Seq<char> {
    let idx = param_name_or(f.params, 1, "index"@);
    let val = param_name_or(f.params, 2, "value"@);
    let base = if f.params.len() > 2 {
        base_model(f.params[2].ty.cpp_type)
    } else {
        "void"@
    };
    "    if (self == nullptr || "@ + val + " == nullptr || "@ + idx + " < 0 || "@ + idx + " >= "@
        + array_len_of(a) + ") {\n        return;\n    }\n    "@ + member(receiver, a.field_name)
        + "["@ + idx + "] = *reinterpret_cast<"@ + base + "*>("@ + val + ");\n"@
}

fn param_name_at<'a>(params: &'a Vec<IrParam>, i: usize, default: &'a str) -> (r: &'a str)
    ensures
        r@ == param_name_or(params_view(params@), i as int, default@),
{
    if i < params.len() {
        params[i].name.as_str()
    } else {
        default
    }
}

fn render_indexed_getter_body(function: &IrFunction, field: &String, array_len: Option<usize>, receiver: &str) -> (r: String)
    ensures
        forall|a: IrFieldAccessorV|
            a.field_name == field@ && a.array_len == array_len ==> r@ == indexed_getter_body(
                function@,
                a,
                receiver@,
            ),
{
    let idx = param_name_at(&function.params, 1, "index");
    let len = decimal_string(match array_len {
        Some(n) => n,
        None => 0,
    });
    let c = &function.returns.c_type;
    let mut cast = String::new();
    if starts_with_lit(chars_of(c.as_str()).as_slice(), "const ") {
        push_str(&mut cast, "reinterpret_cast<");
        push_string(&mut cast, c);
        push_str(&mut cast, ">(&");
        push_member(&mut cast, receiver, field);
        push_str(&mut cast, "[");
        push_str(&mut cast, idx);
        push_str(&mut cast, "]");
        push_str(&mut cast, ")");
    } else {
        let base = base_model_vec(chars_of(function.returns.cpp_type.as_str()).as_slice());
        push_str(&mut cast, "reinterpret_cast<");
        push_string(&mut cast, c);
        push_str(&mut cast, ">(const_cast<");
        push_chars(&mut cast, base.as_slice());
        push_str(&mut cast, "*>(&");
        push_member(&mut cast, receiver, field);
        push_str(&mut cast, "[");
        push_str(&mut cast, idx);
        push_str(&mut cast, "]");
        push_str(&mut cast, "))");
    }
    let mut out = String::from_str("    if (self == nullptr || ");
    push_str(&mut out, idx);
    push_str(&mut out, " < 0 || ");
    push_str(&mut out, idx);
    push_str(&mut out, " >= ");
    push_string(&mut out, &len);
    push_str(&mut out, ") {\n        return nullptr;\n    }\n    return ");
    push_string(&mut out, &cast);
    push_str(&mut out, ";\n");
    out
}

fn render_indexed_setter_body(function: &IrFunction, field: &String, array_len: Option<usize>, receiver: &str) -> (r: String)
    ensures
        forall|a: IrFieldAccessorV|
            a.field_name == field@ && a.array_len == array_len ==> r@ == indexed_setter_body(
                function@,
                a,
                receiver@,
            ),
{
    let idx = param_name_at(&function.params, 1, "index");
    let val = param_name_at(&function.params, 2, "value");
    let len = decimal_string(match array_len {
        Some(n) => n,
        None => 0,
    });
    let base = if function.params.len() > 2 {
        base_model_vec(chars_of(function.params[2].ty.cpp_type.as_str()).as_slice())
    } else {
        chars_of("void")
    };
    let mut out = String::from_str("    if (self == nullptr || ");
    push_str(&mut out, val);
    push_str(&mut out, " == nullptr || ");
    push_str(&mut out, idx);
    push_str(&mut out, " < 0 || ");
    push_str(&mut out, idx);
    push_str(&mut out, " >= ");
    push_string(&mut out, &len);
    push_str(&mut out, ") {\n        return;\n    }\n    ");
    push_member(&mut out, receiver, field);
    push_str(&mut out, "[");
    push_str(&mut out, idx);
    push_str(&mut out, "] = *reinterpret_cast<");
    push_chars(&mut out, base.as_slice());
    push_str(&mut out, "*>(");
    push_str(&mut out, val);
    push_str(&mut out, ");\n");
    out
}

// ---------------------------------------------------------------------------
// Definitions
// ---------------------------------------------------------------------------

pub open spec fn owner_or_void(f: IrFunctionV) -> Seq<char> {
    match f.owner_cpp_type {
        Some(o) => o,
        None => "void"@,
    }
}

/// `reinterpret_cast<[const ]Owner*>(self)`, `const` for const methods.
pub open spec fn receiver_cast(f: IrFunctionV) -> Seq<char> {
    if f.is_const == Some(true) {
        "reinterpret_cast<const "@ + owner_or_void(f) + "*>(self)"@
    } else {
        "reinterpret_cast<"@ + owner_or_void(f) + "*>(self)"@
    }
}

/// The body of a method: a field accessor reads or writes the field; any other method is
/// called on the receiver with the arguments after `self`.
pub open spec fn method_body(f: IrFunctionV) -> Seq<char> {
    let r = receiver_cast(f);
    match f.field_accessor {
        Some(a) => match a.access {
            FieldAccessKind::Get => field_getter_body(f, r, a.field_name),
            FieldAccessKind::Put => field_setter_body(f, r, a.field_name),
            FieldAccessKind::GetAt => indexed_getter_body(f, a, r),
            FieldAccessKind::SetAt => indexed_setter_body(f, a, r),
        },
        None => callable_body(
            f,
            r + "->"@ + leaf(f.cpp_name),
            if f.params.len() >= 1 {
                call_args(f, 1)
            } else {
                seq![]
            },
        ),
    }
}

/// The body of a wrapper, by its kind.
pub open spec fn function_body(f: IrFunctionV) -> Seq<char> {
    match f.kind {
        IrFunctionKind::Constructor => "    return reinterpret_cast<"@ + f.returns.c_type + ">(new "@
            + owner_or_void(f) + "("@ + call_args(f, 0) + "));\n"@,
        IrFunctionKind::Destructor => "    delete reinterpret_cast<"@ + owner_or_void(f)
            + "*>(self);\n"@,
        IrFunctionKind::Method => method_body(f),
        IrFunctionKind::Function => callable_body(f, f.cpp_name, call_args(f, 0)),
    }
}

/// `<signature> {`, the body, `}`.
pub open spec fn function_def(f: IrFunctionV) -> Seq<char> {
    f.returns.c_type + " "@ + f.name + "("@ + param_list(f.params) + ")"@ + " {\n"@
        + function_body(f) + "}\n"@
}

fn push_owner(out: &mut String, function: &IrFunction)
    ensures
        final(out)@ == old(out)@ + owner_or_void(function@),
{
    match &function.owner_cpp_type {
        Some(o) => push_string(out, o),
        None => push_str(out, "void"),
    }
}

fn render_receiver(function: &IrFunction) -> (r: String)
    ensures
        r@ == receiver_cast(function@),
{
    let mut out = String::new();
    let is_const = match function.is_const {
        Some(b) => b,
        None => false,
    };
    if is_const {
        push_str(&mut out, "reinterpret_cast<const ");
    } else {
        push_str(&mut out, "reinterpret_cast<");
    }
    push_owner(&mut out, function);
    push_str(&mut out, "*>(self)");
    out
}

fn render_method_body(function: &IrFunction) -> (r: String)
    ensures
        r@ == method_body(function@),
{
    let receiver = render_receiver(function);
    match &function.field_accessor {
        Some(a) => match a.access {
            FieldAccessKind::Get => render_field_getter_body(
                function,
                receiver.as_str(),
                &a.field_name,
            ),
            FieldAccessKind::Put => render_field_setter_body(
                function,
                receiver.as_str(),
                &a.field_name,
            ),
            FieldAccessKind::GetAt => {
                let r = render_indexed_getter_body(
                    function,
                    &a.field_name,
                    a.array_len,
                    receiver.as_str(),
                );
                assert(r@ == indexed_getter_body(function@, a@, receiver@));
                r
            },
            FieldAccessKind::SetAt => {
                let r = render_indexed_setter_body(
                    function,
                    &a.field_name,
                    a.array_len,
                    receiver.as_str(),
                );
                assert(r@ == indexed_setter_body(function@, a@, receiver@));
                r
            },
        },
        None => {
            let mut target = receiver;
            push_str(&mut target, "->");
            let m = crate::gotypes::leaf_cpp_name(function.cpp_name.as_str());
            push_string(&mut target, &m);
            if function.params.len() >= 1 {
                render_callable_body(function, target.as_str(), 1)
            } else {
                let r = render_callable_body(function, target.as_str(), 0);
                assert(function@.params.skip(0) =~= Seq::<IrParamV>::empty());
                assert(arg_list(Seq::<IrParamV>::empty()) =~= Seq::<Seq<char>>::empty());
                r
            }
        },
    }
}

fn render_function_body(function: &IrFunction) -> (r: String)
    ensures
        r@ == function_body(function@),
{
    match function.kind {
        IrFunctionKind::Constructor => {
            let args = render_call_args(function, 0);
            let mut out = String::from_str("    return reinterpret_cast<");
            push_string(&mut out, &function.returns.c_type);
            push_str(&mut out, ">(new ");
            push_owner(&mut out, function);
            push_str(&mut out, "(");
            push_string(&mut out, &args);
            push_str(&mut out, "));\n");
            out
        },
        IrFunctionKind::Destructor => {
            let mut out = String::from_str("    delete reinterpret_cast<");
            push_owner(&mut out, function);
            push_str(&mut out, "*>(self);\n");
            out
        },
        IrFunctionKind::Method => render_method_body(function),
        IrFunctionKind::Function => render_callable_body(function, function.cpp_name.as_str(), 0),
    }
}

/// The definition of a wrapper function.
pub fn render_function_def(function: &IrFunction) -> (r: String)
    ensures
        r@ == function_def(function@),
{
    let body = render_function_body(function);
    let mut out = String::new();
    push_string(&mut out, &function.returns.c_type);
    push_str(&mut out, " ");
    push_string(&mut out, &function.name);
    push_str(&mut out, "(");
    crate::header::push_param_list_pub(&mut out, &function.params);
    push_str(&mut out, ")");
    push_str(&mut out, " {\n");
    push_string(&mut out, &body);
    push_str(&mut out, "}\n");
    out
}

// ---------------------------------------------------------------------------
// Callbacks
// ---------------------------------------------------------------------------

/// The callback typedef named `n`; the last one where several share the name.
pub open spec fn last_callback(cs: Seq<IrCallbackV>, n: Seq<char>) -> Option<IrCallbackV>
    decreases cs.len(),
{
    if cs.len() == 0 {
        None
    } else if cs.last().name == n {
        Some(cs.last())
    } else {
        last_callback(cs.drop_last(), n)
    }
}

/// Every callback parameter names a known callback typedef.
pub open spec fn callbacks_known(fs: Seq<IrFunctionV>, cs: Seq<IrCallbackV>) -> bool {
    forall|i: int, j: int|
        0 <= i < fs.len() && 0 <= j < fs[i].params.len() && fs[i].params[j].ty.kind
            == IrTypeKind::Callback ==> last_callback(cs, fs[i].params[j].ty.cpp_type) is Some
}

/// `go_<function>_cb<i>`, the Go function a callback argument is routed to.
pub open spec fn go_callback_symbol(f: IrFunctionV, i: int) -> Seq<char> {
    "go_"@ + f.name + "_cb"@ + decimal(i as nat)
}

/// `<function>_cb<i>_trampoline`
pub open spec fn trampoline_name(f: IrFunctionV, i: int) -> Seq<char> {
    f.name + "_cb"@ + decimal(i as nat) + "_trampoline"@
}

pub open spec fn extern_decl(f: IrFunctionV, i: int, cb: IrCallbackV) -> Seq<char> {
    "    "@ + cb.returns.c_type + " "@ + go_callback_symbol(f, i) + "("@ + param_list(cb.params)
        + ");"@
}

pub open spec fn param_extern_decls(f: IrFunctionV, cs: Seq<IrCallbackV>, j: int) -> Seq<Seq<char>>
    decreases j,
{
    if j <= 0 {
        seq![]
    } else {
        let prev = param_extern_decls(f, cs, j - 1);
        let p = f.params[j - 1];
        if p.ty.kind == IrTypeKind::Callback {
            match last_callback(cs, p.ty.cpp_type) {
                Some(cb) => prev.push(extern_decl(f, j - 1, cb)),
                None => prev,
            }
        } else {
            prev
        }
    }
}

pub open spec fn extern_decls(fs: Seq<IrFunctionV>, cs: Seq<IrCallbackV>) -> Seq<Seq<char>>
    decreases fs.len(),
{
    if fs.len() == 0 {
        seq![]
    } else {
        extern_decls(fs.drop_last(), cs) + param_extern_decls(
            fs.last(),
            cs,
            fs.last().params.len() as int,
        )
    }
}

/// The `extern "C"` declarations of the Go functions that callbacks are routed to.
pub open spec fn extern_block(fs: Seq<IrFunctionV>, cs: Seq<IrCallbackV>) -> Seq<char> {
    let ds = extern_decls(fs, cs);
    if ds.len() == 0 {
        seq![]
    } else {
        "extern \"C\" {\n"@ + join(ds, "\n"@) + "\n}\n\n"@
    }
}

pub open spec fn param_names(ps: Seq<IrParamV>) -> Seq<Seq<char>> {
    ps.map_values(|p: IrParamV| p.name)
}

pub open spec fn trampoline_decl(f: IrFunctionV, i: int, cb: IrCallbackV) -> Seq<char> {
    "    "@ + cb.name + " "@ + trampoline_name(f, i) + " = []("@ + param_list(cb.params) + ") -> "@
        + cb.returns.c_type + " { "@ + (if cb.returns.kind == IrTypeKind::Void {
        seq![]
    } else {
        "return "@
    }) + go_callback_symbol(f, i) + "("@ + join(param_names(cb.params), ", "@) + ");"@ + " };\n"@
}

pub open spec fn trampolines(f: IrFunctionV, cs: Seq<IrCallbackV>, j: int) -> Seq<char>
    decreases j,
{
    if j <= 0 {
        seq![]
    } else {
        let p = f.params[j - 1];
        trampolines(f, cs, j - 1) + (if p.ty.kind == IrTypeKind::Callback {
            trampoline_decl(f, j - 1, last_callback(cs, p.ty.cpp_type)->0)
        } else {
            seq![]
        })
    }
}

pub open spec fn bridge_arg(f: IrFunctionV, i: int) -> Seq<char> {
    if f.params[i].ty.kind == IrTypeKind::Callback {
        "use_cb"@ + decimal(i as nat) + " ? "@ + trampoline_name(f, i) + " : nullptr"@
    } else {
        f.params[i].name
    }
}

pub open spec fn bridge_args(f: IrFunctionV) -> Seq<Seq<char>> {
    Seq::new(f.params.len(), |i: int| bridge_arg(f, i))
}

/// The body of a callback bridge: a trampoline per callback, then the call of the
/// wrapper with each callback or null.
pub open spec fn bridge_body(f: IrFunctionV, cs: Seq<IrCallbackV>) -> Seq<char> {
    trampolines(f, cs, f.params.len() as int) + (if f.returns.kind == IrTypeKind::Void {
        "    "@ + f.name + "("@ + join(bridge_args(f), ", "@) + ");\n"@
    } else {
        "    return "@ + f.name + "("@ + join(bridge_args(f), ", "@) + ");\n"@
    })
}

pub open spec fn bridge_def(f: IrFunctionV, cs: Seq<IrCallbackV>) -> Seq<char> {
    f.returns.c_type + " "@ + f.name + "_bridge"@ + "("@ + param_list(bridge_params(f.params))
        + ")"@ + " {\n"@ + bridge_body(f, cs) + "}\n"@
}

fn find_callback<'a>(callbacks: &'a Vec<IrCallback>, name: &String) -> (r: Option<&'a IrCallback>)
    ensures
        match last_callback(callbacks@.map_values(|c: IrCallback| c@), name@) {
            Some(cb) => r is Some && r->0@ == cb,
            None => r is None,
        },
{
    let ghost cs = callbacks@.map_values(|c: IrCallback| c@);
    let nv = chars_of(name.as_str());
    let mut found: Option<&IrCallback> = None;
    let mut i: usize = 0;
    while i < callbacks.len()
        invariant
            i <= callbacks.len(),
            cs == callbacks@.map_values(|c: IrCallback| c@),
            nv@ == name@,
            match last_callback(cs.take(i as int), name@) {
                Some(cb) => found is Some && found->0@ == cb,
                None => found is None,
            },
        decreases callbacks.len() - i,
    {
        assert(cs.take(i + 1).drop_last() =~= cs.take(i as int));
        assert(cs[i as int] == callbacks@[i as int]@);
        let c = chars_of(callbacks[i].name.as_str());
        if seq_eq(c.as_slice(), nv.as_slice()) {
            found = Some(&callbacks[i]);
        }
        i = i + 1;
    }
    assert(cs.take(i as int) =~= cs);
    found
}

fn render_extern_decl(function: &IrFunction, i: usize, cb: &IrCallback) -> (r: String)
    ensures
        r@ == extern_decl(function@, i as int, cb@),
{
    let mut out = String::from_str("    ");
    push_string(&mut out, &cb.returns.c_type);
    push_str(&mut out, " ");
    push_str(&mut out, "go_");
    push_string(&mut out, &function.name);
    push_str(&mut out, "_cb");
    push_string(&mut out, &decimal_string(i));
    push_str(&mut out, "(");
    crate::header::push_param_list_pub(&mut out, &cb.params);
    push_str(&mut out, ");");
    out
}

/// The `extern "C"` block for the functions' callbacks; empty when there are none.
pub fn render_go_callback_extern_c_block(functions: &Vec<IrFunction>, callbacks: &Vec<IrCallback>) -> (r:
    String)
    ensures
        r@ == extern_block(functions_view(functions@), callbacks@.map_values(|c: IrCallback| c@)),
{
    let ghost fs = functions_view(functions@);
    let ghost cs = callbacks@.map_values(|c: IrCallback| c@);
    let mut decls: Vec<String> = Vec::new();
    let mut i: usize = 0;
    assert(fs.take(0) =~= Seq::<IrFunctionV>::empty());
    assert(crate::text::views(decls@) =~= Seq::<Seq<char>>::empty());
    while i < functions.len()
        invariant
            i <= functions.len(),
            fs == functions_view(functions@),
            cs == callbacks@.map_values(|c: IrCallback| c@),
            crate::text::views(decls@) == extern_decls(fs.take(i as int), cs),
        decreases functions.len() - i,
    {
        let f = &functions[i];
        assert(fs[i as int] == f@);
        assert(fs.take(i + 1).drop_last() =~= fs.take(i as int));
        let ghost base = crate::text::views(decls@);
        let mut j: usize = 0;
        while j < f.params.len()
            invariant
                j <= f.params.len(),
                f@ == fs[i as int],
                cs == callbacks@.map_values(|c: IrCallback| c@),
                crate::text::views(decls@) == base + param_extern_decls(f@, cs, j as int),
            decreases f.params.len() - j,
        {
            let p = &f.params[j];
            assert(f@.params[j as int] == p@);
            if p.ty.kind == IrTypeKind::Callback {
                match find_callback(callbacks, &p.ty.cpp_type) {
                    Some(cb) => {
                        let d = render_extern_decl(f, j, cb);
                        let ghost before = crate::text::views(decls@);
                        decls.push(d);
                        assert(crate::text::views(decls@) =~= before.push(d@));
                        assert(base + param_extern_decls(f@, cs, j + 1) =~= (base
                            + param_extern_decls(f@, cs, j as int)).push(d@));
                    },
                    None => {},
                }
            }
            j = j + 1;
        }
        i = i + 1;
    }
    assert(fs.take(i as int) =~= fs);
    if decls.len() == 0 {
        return String::new();
    }
    let mut out = String::from_str("extern \"C\" {\n");
    let body = crate::text::join_strings(&decls, "\n");
    push_string(&mut out, &body);
    push_str(&mut out, "\n}\n\n");
    out
}

fn render_trampoline_decl(function: &IrFunction, i: usize, cb: &IrCallback) -> (r: String)
    ensures
        r@ == trampoline_decl(function@, i as int, cb@),
{
    let mut names: Vec<String> = Vec::new();
    let mut k: usize = 0;
    while k < cb.params.len()
        invariant
            k <= cb.params.len(),
            crate::text::views(names@) =~= param_names(cb@.params).take(k as int),
        decreases cb.params.len() - k,
    {
        assert(cb@.params[k as int] == cb.params@[k as int]@);
        let nm = cb.params[k].name.clone();
        let ghost before = crate::text::views(names@);
        names.push(nm);
        assert(crate::text::views(names@) =~= before.push(nm@));
        assert(param_names(cb@.params).take(k + 1) =~= param_names(cb@.params).take(k as int).push(
            nm@,
        ));
        k = k + 1;
    }
    assert(param_names(cb@.params).take(k as int) =~= param_names(cb@.params));
    let joined = crate::text::join_strings(&names, ", ");
    let mut out = String::from_str("    ");
    push_string(&mut out, &cb.name);
    push_str(&mut out, " ");
    push_string(&mut out, &function.name);
    push_str(&mut out, "_cb");
    push_string(&mut out, &decimal_string(i));
    push_str(&mut out, "_trampoline");
    push_str(&mut out, " = [](");
    crate::header::push_param_list_pub(&mut out, &cb.params);
    push_str(&mut out, ") -> ");
    push_string(&mut out, &cb.returns.c_type);
    push_str(&mut out, " { ");
    if cb.returns.kind != IrTypeKind::Void {
        push_str(&mut out, "return ");
    } else {
        assert(out@ + Seq::<char>::empty() =~= out@);
    }
    push_str(&mut out, "go_");
    push_string(&mut out, &function.name);
    push_str(&mut out, "_cb");
    push_string(&mut out, &decimal_string(i));
    push_str(&mut out, "(");
    push_string(&mut out, &joined);
    push_str(&mut out, ");");
    push_str(&mut out, " };\n");
    out
}

/// The definition of the callback bridge of `function`.
pub fn render_callback_bridge_def(function: &IrFunction, callbacks: &Vec<IrCallback>) -> (r: String)
    requires
        forall|j: int|
            0 <= j < function@.params.len() && function@.params[j].ty.kind == IrTypeKind::Callback
                ==> last_callback(
                callbacks@.map_values(|c: IrCallback| c@),
                function@.params[j].ty.cpp_type,
            ) is Some,
    ensures
        r@ == bridge_def(function@, callbacks@.map_values(|c: IrCallback| c@)),
{
    let ghost cs = callbacks@.map_values(|c: IrCallback| c@);
    let ghost f = function@;
    let mut body = String::new();
    let mut j: usize = 0;
    while j < function.params.len()
        invariant
            j <= function.params.len(),
            f == function@,
            cs == callbacks@.map_values(|c: IrCallback| c@),
            forall|q: int|
                0 <= q < f.params.len() && f.params[q].ty.kind == IrTypeKind::Callback
                    ==> last_callback(cs, f.params[q].ty.cpp_type) is Some,
            body@ == trampolines(f, cs, j as int),
        decreases function.params.len() - j,
    {
        let p = &function.params[j];
        assert(f.params[j as int] == p@);
        if p.ty.kind == IrTypeKind::Callback {
            match find_callback(callbacks, &p.ty.cpp_type) {
                Some(cb) => {
                    let d = render_trampoline_decl(function, j, cb);
                    push_string(&mut body, &d);
                },
                None => {},
            }
        } else {
            assert(body@ + Seq::<char>::empty() =~= body@);
        }
        j = j + 1;
    }
    let mut args: Vec<String> = Vec::new();
    let mut k: usize = 0;
    while k < function.params.len()
        invariant
            k <= function.params.len(),
            f == function@,
            crate::text::views(args@) =~= bridge_args(f).take(k as int),
        decreases function.params.len() - k,
    {
        let p = &function.params[k];
        assert(f.params[k as int] == p@);
        if p.ty.kind == IrTypeKind::Callback {
            let mut a = String::from_str("use_cb");
            push_string(&mut a, &decimal_string(k));
            push_str(&mut a, " ? ");
            push_string(&mut a, &function.name);
            push_str(&mut a, "_cb");
            push_string(&mut a, &decimal_string(k));
            push_str(&mut a, "_trampoline");
            push_str(&mut a, " : nullptr");
            assert(a@ == bridge_arg(f, k as int));
            let ghost before = crate::text::views(args@);
            args.push(a);
            assert(crate::text::views(args@) =~= before.push(bridge_arg(f, k as int)));
        } else {
            let a = p.name.clone();
            assert(a@ == bridge_arg(f, k as int));
            let ghost before = crate::text::views(args@);
            args.push(a);
            assert(crate::text::views(args@) =~= before.push(bridge_arg(f, k as int)));
        }
        assert(bridge_args(f).take(k + 1) =~= bridge_args(f).take(k as int).push(
            bridge_arg(f, k as int),
        ));
        k = k + 1;
    }
    assert(bridge_args(f).take(k as int) =~= bridge_args(f));
    let joined = crate::text::join_strings(&args, ", ");
    if function.returns.kind == IrTypeKind::Void {
        push_str(&mut body, "    ");
    } else {
        push_str(&mut body, "    return ");
    }
    push_string(&mut body, &function.name);
    push_str(&mut body, "(");
    push_string(&mut body, &joined);
    push_str(&mut body, ");\n");
    let mut out = String::new();
    push_string(&mut out, &function.returns.c_type);
    push_str(&mut out, " ");
    push_string(&mut out, &function.name);
    push_str(&mut out, "_bridge");
    push_str(&mut out, "(");
    crate::header::push_bridge_param_list_pub(&mut out, &function.params);
    push_str(&mut out, ")");
    push_str(&mut out, " {\n");
    push_string(&mut out, &body);
    push_str(&mut out, "}\n");
    out
}

// ---------------------------------------------------------------------------
// The source file
// ---------------------------------------------------------------------------

/// The file names of the headers a source includes, each once, in order of first
/// appearance; paths without a file name are left out.
pub open spec fn include_names(ps: Seq<Seq<char>>) -> Seq<Seq<char>>
    decreases ps.len(),
{
    if ps.len() == 0 {
        seq![]
    } else {
        let prev = include_names(ps.drop_last());
        match crate::config::file_name(ps.last()) {
            Some(n) => if n.len() > 0 && !prev.contains(n) {
                prev.push(n)
            } else {
                prev
            },
            None => prev,
        }
    }
}

/// The names to include for the given header paths (collected from the sources and their
/// local includes by the caller).
pub fn source_include_names(paths: &Vec<String>) -> (r: Vec<String>)
    ensures
        strs(r@) == include_names(strs(paths@)),
{
    let ghost ps = strs(paths@);
    let mut out: Vec<String> = Vec::new();
    let mut i: usize = 0;
    assert(ps.take(0) =~= Seq::<Seq<char>>::empty());
    while i < paths.len()
        invariant
            i <= paths.len(),
            ps == strs(paths@),
            strs(out@) == include_names(ps.take(i as int)),
        decreases paths.len() - i,
    {
        assert(ps.take(i + 1).drop_last() =~= ps.take(i as int));
        assert(ps[i as int] == paths@[i as int]@);
        let v = chars_of(paths[i].as_str());
        match crate::config::file_name_of(v.as_slice()) {
            Some(n) => {
                if n.len() > 0 && !crate::ir::contains_str(&out, n.as_slice()) {
                    let ghost before = strs(out@);
                    out.push(string_of(n.as_slice()));
                    assert(strs(out@) =~= before.push(n@));
                }
            },
            None => {},
        }
        i = i + 1;
    }
    assert(ps.take(i as int) =~= ps);
    out
}

pub open spec fn include_lines(ns: Seq<Seq<char>>) -> Seq<char>
    decreases ns.len(),
{
    if ns.len() == 0 {
        seq![]
    } else {
        include_lines(ns.drop_last()) + "#include \""@ + ns.last() + "\"\n"@
    }
}

pub open spec fn defs_text(fs: Seq<IrFunctionV>) -> Seq<char>
    decreases fs.len(),
{
    if fs.len() == 0 {
        seq![]
    } else {
        defs_text(fs.drop_last()) + function_def(fs.last()) + "\n"@
    }
}

/// The C++ type deleted for handle `h`: that of the first function returning it by value.
pub open spec fn first_value_cpp(fs: Seq<IrFunctionV>, h: Seq<char>) -> Seq<char>
    decreases fs.len(),
{
    if fs.len() == 0 {
        seq![]
    } else if crate::header::returns_model_value(fs[0], h) {
        base_model(fs[0].returns.cpp_type)
    } else {
        first_value_cpp(fs.drop_first(), h)
    }
}

pub open spec fn delete_def(h: Seq<char>, cpp: Seq<char>) -> Seq<char> {
    "void "@ + delete_symbol(h) + "("@ + h + "* self) {\n    delete reinterpret_cast<"@ + cpp
        + "*>(self);\n}\n"@
}

pub open spec fn delete_defs_text(fs: Seq<IrFunctionV>, hs: Seq<Seq<char>>) -> Seq<char>
    decreases hs.len(),
{
    if hs.len() == 0 {
        seq![]
    } else {
        delete_defs_text(fs, hs.drop_last()) + delete_def(hs.last(), first_value_cpp(fs, hs.last()))
            + "\n"@
    }
}

pub open spec fn bridge_defs_text(fs: Seq<IrFunctionV>, cs: Seq<IrCallbackV>) -> Seq<char>
    decreases fs.len(),
{
    if fs.len() == 0 {
        seq![]
    } else {
        bridge_defs_text(fs.drop_last(), cs) + (if has_callback_param(fs.last()) {
            bridge_def(fs.last(), cs) + "\n"@
        } else {
            seq![]
        })
    }
}

/// The generated source for a module, including `names` and defining the deleters of
/// `hs`.
pub open spec fn source_text(
    header: Seq<char>,
    names: Seq<Seq<char>>,
    m: IrModuleV,
    hs: Seq<Seq<char>>,
) -> Seq<char> {
    "#include \""@ + header + "\"\n"@
        + "#include <cstdlib>\n#include <cstring>\n#include <new>\n#include <string>\n\n"@
        + include_lines(names) + "\n"@ + defs_text(m.functions) + delete_defs_text(m.functions, hs)
        + extern_block(m.functions, m.callbacks) + bridge_defs_text(m.functions, m.callbacks) + (
    if returns_kind(m.functions, IrTypeKind::String) {
        "void cgowrap_string_free(char* value) {\n    free(value);\n}\n"@
    } else {
        seq![]
    })
}

fn first_value_cpp_type(functions: &Vec<IrFunction>, h: &String) -> (r: Vec<char>)
    ensures
        r@ == first_value_cpp(functions_view(functions@), h@),
{
    let ghost fs = functions_view(functions@);
    let hv = chars_of(h.as_str());
    let mut i: usize = 0;
    assert(fs.skip(0) =~= fs);
    while i < functions.len()
        invariant
            i <= functions.len(),
            fs == functions_view(functions@),
            hv@ == h@,
            first_value_cpp(fs.skip(i as int), h@) == first_value_cpp(fs, h@),
        decreases functions.len() - i,
    {
        let f = &functions[i];
        assert(fs.skip(i as int)[0] == f@);
        assert(fs.skip(i as int).drop_first() =~= fs.skip(i + 1));
        if f.returns.kind == IrTypeKind::ModelValue {
            match &f.returns.handle {
                Some(x) => {
                    let xv = chars_of(x.as_str());
                    if seq_eq(xv.as_slice(), hv.as_slice()) {
                        return base_model_vec(chars_of(f.returns.cpp_type.as_str()).as_slice());
                    }
                },
                None => {},
            }
        }
        i = i + 1;
    }
    assert(fs.skip(i as int) =~= Seq::<IrFunctionV>::empty());
    Vec::new()
}

fn push_includes(out: &mut String, names: &Vec<String>)
    ensures
        final(out)@ == old(out)@ + include_lines(strs(names@)),
{
    let ghost ns = strs(names@);
    let ghost start = out@;
    let mut i: usize = 0;
    assert(ns.take(0) =~= Seq::<Seq<char>>::empty());
    while i < names.len()
        invariant
            i <= names.len(),
            ns == strs(names@),
            out@ == start + include_lines(ns.take(i as int)),
        decreases names.len() - i,
    {
        assert(ns.take(i + 1).drop_last() =~= ns.take(i as int));
        assert(ns[i as int] == names@[i as int]@);
        push_str(out, "#include \"");
        push_string(out, &names[i]);
        push_str(out, "\"\n");
        i = i + 1;
    }
    assert(ns.take(i as int) =~= ns);
}

fn push_defs(out: &mut String, functions: &Vec<IrFunction>)
    ensures
        final(out)@ == old(out)@ + defs_text(functions_view(functions@)),
{
    let ghost fs = functions_view(functions@);
    let ghost start = out@;
    let mut i: usize = 0;
    assert(fs.take(0) =~= Seq::<IrFunctionV>::empty());
    while i < functions.len()
        invariant
            i <= functions.len(),
            fs == functions_view(functions@),
            out@ == start + defs_text(fs.take(i as int)),
        decreases functions.len() - i,
    {
        assert(fs.take(i + 1).drop_last() =~= fs.take(i as int));
        assert(fs[i as int] == functions@[i as int]@);
        let d = render_function_def(&functions[i]);
        push_string(out, &d);
        push_str(out, "\n");
        i = i + 1;
    }
    assert(fs.take(i as int) =~= fs);
}

fn push_delete_defs(out: &mut String, functions: &Vec<IrFunction>, hs: &Vec<String>)
    ensures
        final(out)@ == old(out)@ + delete_defs_text(functions_view(functions@), strs(hs@)),
{
    let ghost fs = functions_view(functions@);
    let ghost s = strs(hs@);
    let ghost start = out@;
    let mut i: usize = 0;
    assert(s.take(0) =~= Seq::<Seq<char>>::empty());
    while i < hs.len()
        invariant
            i <= hs.len(),
            fs == functions_view(functions@),
            s == strs(hs@),
            out@ == start + delete_defs_text(fs, s.take(i as int)),
        decreases hs.len() - i,
    {
        assert(s.take(i + 1).drop_last() =~= s.take(i as int));
        assert(s[i as int] == hs@[i as int]@);
        let h = &hs[i];
        let sym = opaque_delete_symbol(h.as_str());
        let cpp = first_value_cpp_type(functions, h);
        push_str(out, "void ");
        push_string(out, &sym);
        push_str(out, "(");
        push_string(out, h);
        push_str(out, "* self) {\n    delete reinterpret_cast<");
        push_chars(out, cpp.as_slice());
        push_str(out, "*>(self);\n}\n");
        push_str(out, "\n");
        i = i + 1;
    }
    assert(s.take(i as int) =~= s);
}

fn push_bridge_defs(out: &mut String, functions: &Vec<IrFunction>, callbacks: &Vec<IrCallback>)
    requires
        callbacks_known(functions_view(functions@), callbacks@.map_values(|c: IrCallback| c@)),
    ensures
        final(out)@ == old(out)@ + bridge_defs_text(
            functions_view(functions@),
            callbacks@.map_values(|c: IrCallback| c@),
        ),
{
    let ghost fs = functions_view(functions@);
    let ghost cs = callbacks@.map_values(|c: IrCallback| c@);
    let ghost start = out@;
    let mut i: usize = 0;
    assert(fs.take(0) =~= Seq::<IrFunctionV>::empty());
    while i < functions.len()
        invariant
            i <= functions.len(),
            fs == functions_view(functions@),
            cs == callbacks@.map_values(|c: IrCallback| c@),
            callbacks_known(fs, cs),
            out@ == start + bridge_defs_text(fs.take(i as int), cs),
        decreases functions.len() - i,
    {
        assert(fs.take(i + 1).drop_last() =~= fs.take(i as int));
        assert(fs[i as int] == functions@[i as int]@);
        if takes_callback(&functions[i]) {
            let d = render_callback_bridge_def(&functions[i], callbacks);
            push_string(out, &d);
            push_str(out, "\n");
        } else {
            assert(out@ + Seq::<char>::empty() =~= out@);
        }
        i = i + 1;
    }
    assert(fs.take(i as int) =~= fs);
}

/// The source for a module, including `include_names` and defining the deleters of `hs`.
pub fn render_source_with_deletes(
    ctx: &PipelineContext,
    ir: &IrModule,
    include_names: &Vec<String>,
    hs: &Vec<String>,
) -> (r: String)
    requires
        callbacks_known(module_view(*ir).functions, module_view(*ir).callbacks),
    ensures
        r@ == source_text(ctx@.config.output.header, strs(include_names@), module_view(*ir), strs(hs@)),
{
    let mut out = String::from_str("#include \"");
    push_string(&mut out, &ctx.config.output.header);
    push_str(&mut out, "\"\n");
    push_str(&mut out, "#include <cstdlib>\n#include <cstring>\n#include <new>\n#include <string>\n\n");
    push_includes(&mut out, include_names);
    push_str(&mut out, "\n");
    push_defs(&mut out, &ir.functions);
    push_delete_defs(&mut out, &ir.functions, hs);
    let block = render_go_callback_extern_c_block(&ir.functions, &ir.callbacks);
    push_string(&mut out, &block);
    push_bridge_defs(&mut out, &ir.functions, &ir.callbacks);
    if any_returns_kind(&ir.functions, IrTypeKind::String) {
        push_str(&mut out, "void cgowrap_string_free(char* value) {\n    free(value);\n}\n");
    } else {
        assert(out@ + Seq::<char>::empty() =~= out@);
    }
    out
}

/// The C++ source of a module: the header and the given local headers included, every
/// wrapper defined, deleters for opaque model values without another owner, the
/// `extern "C"` declarations and bridges for callbacks, and the string free helper.
pub fn render_source(ctx: &PipelineContext, ir: &IrModule, include_paths: &Vec<String>) -> (r: String)
    requires
        callbacks_known(module_view(*ir).functions, module_view(*ir).callbacks),
    ensures
        exists|hs: Seq<Seq<char>>|
            delete_order(ctx@.known_model_projections, module_view(*ir).functions, seq![], None, hs)
                && r@ == source_text(
                ctx@.config.output.header,
                include_names(strs(include_paths@)),
                module_view(*ir),
                hs,
            ),
{
    let covered: Vec<String> = Vec::new();
    let hs = synthetic_delete_handles(ctx, &ir.functions, &covered, None);
    assert(strs(covered@) =~= Seq::<Seq<char>>::empty());
    let names = source_include_names(include_paths);
    render_source_with_deletes(ctx, ir, &names, &hs)
}

} // verus!
