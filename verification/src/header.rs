//! The generated C header: opaque handle typedefs, callback typedefs and the declarations
//! of every wrapper function.
use vstd::prelude::*;

use crate::assemble::{lemma_lex_total, lemma_lex_trans, lex_lt, module_view, sorted_strict, IrModuleV};
use crate::context::PipelineContext;
use crate::ir::{
    contains_str, functions_view, opt_view, params_view, strs, IrCallback, IrCallbackV,
    IrFunction, IrFunctionV, IrModule, IrParam, IrParamV, IrType, IrTypeV,
};
use crate::kind::{IrFunctionKind, IrTypeKind};
use crate::projection::ModelProjectionV;
use crate::text::{
    chars_of, decimal, decimal_string, eq_lit, join, push_chars, push_str, push_string,
    seq_eq, string_of, strip_suffix, strip_suffix_lit,
};
use crate::types::{base_model, base_model_vec};
use crate::unicode::{char_to_uppercase, uppercase_mapping};

verus! {

// ---------------------------------------------------------------------------
// Declarations
// ---------------------------------------------------------------------------

/// `<c type> <name>`
pub open spec fn param_decl(p: IrParamV) -> Seq<char> {
    p.ty.c_type + " "@ + p.name
}

pub open spec fn param_decls(ps: Seq<IrParamV>) -> Seq<Seq<char>> {
    ps.map_values(|p: IrParamV| param_decl(p))
}

/// A C parameter list: `void` when empty, else the parameters joined by `, `.
pub open spec fn param_list(ps: Seq<IrParamV>) -> Seq<char> {
    if ps.len() == 0 {
        "void"@
    } else {
        join(param_decls(ps), ", "@)
    }
}

/// `<return c type> <name>(<params>);`
pub open spec fn function_decl(f: IrFunctionV) -> Seq<char> {
    f.returns.c_type + " "@ + f.name + "("@ + param_list(f.params) + ");"@
}

/// `typedef <return c type> (*<name>)(<params>);` and a blank line.
pub open spec fn callback_decl(c: IrCallbackV) -> Seq<char> {
    "typedef "@ + c.returns.c_type + " (*"@ + c.name + ")("@ + param_list(c.params)
        + ");\n\n"@
}

pub open spec fn bool_type() -> IrTypeV {
    IrTypeV { kind: IrTypeKind::Primitive, cpp_type: "bool"@, c_type: "bool"@, handle: None }
}

/// The parameters of a callback bridge: each callback parameter at position `i` becomes a
/// `bool use_cb<i>` flag.
pub open spec fn bridge_params(ps: Seq<IrParamV>) -> Seq<IrParamV> {
    Seq::new(
        ps.len(),
        |i: int|
            if ps[i].ty.kind == IrTypeKind::Callback {
                IrParamV { name: "use_cb"@ + decimal(i as nat), ty: bool_type() }
            } else {
                ps[i]
            },
    )
}

/// The C-callable bridge of a function that takes callbacks: `<name>_bridge`, a free
/// function with the same result and flags in place of the callbacks.
pub open spec fn bridge_function(f: IrFunctionV) -> IrFunctionV {
    IrFunctionV {
        name: f.name + "_bridge"@,
        kind: IrFunctionKind::Function,
        field_accessor: None,
        params: bridge_params(f.params),
        ..f
    }
}

pub open spec fn has_callback_param(f: IrFunctionV) -> bool {
    exists|i: int| 0 <= i < f.params.len() && f.params[i].ty.kind == IrTypeKind::Callback
}

fn push_param_list(out: &mut String, params: &Vec<IrParam>)
    ensures
        final(out)@ == old(out)@ + param_list(params_view(params@)),
{
    let ghost ps = params_view(params@);
    if params.len() == 0 {
        push_str(out, "void");
        return;
    }
    let ghost start = out@;
    push_string(out, &params[0].ty.c_type);
    push_str(out, " ");
    push_string(out, &params[0].name);
    let mut i: usize = 1;
    proof {
        assert(param_decls(ps).take(1) =~= seq![param_decl(ps[0])]);
        assert(join(param_decls(ps).take(1), ", "@) == param_decl(ps[0]));
    }
    while i < params.len()
        invariant
            1 <= i <= params.len(),
            ps == params_view(params@),
            out@ == start + join(param_decls(ps).take(i as int), ", "@),
        decreases params.len() - i,
    {
        let p = &params[i];
        assert(ps[i as int] == p@);
        push_str(out, ", ");
        push_string(out, &p.ty.c_type);
        push_str(out, " ");
        push_string(out, &p.name);
        proof {
            let ds = param_decls(ps);
            assert(ds.take(i + 1).drop_last() =~= ds.take(i as int));
            assert(ds.take(i + 1).last() == param_decl(ps[i as int]));
        }
        i = i + 1;
    }
    assert(param_decls(ps).take(i as int) =~= param_decls(ps));
}

fn push_bridge_param(out: &mut String, params: &Vec<IrParam>, i: usize)
    requires
        i < params@.len(),
    ensures
        final(out)@ == old(out)@ + param_decl(bridge_params(params_view(params@))[i as int]),
{
    let p = &params[i];
    if p.ty.kind == IrTypeKind::Callback {
        push_str(out, "bool use_cb");
        push_string(out, &decimal_string(i));
        proof {
            reveal_strlit("bool use_cb");
            reveal_strlit("bool");
            reveal_strlit(" ");
            reveal_strlit("use_cb");
            assert("bool use_cb"@ =~= "bool"@ + " "@ + "use_cb"@);
        }
    } else {
        push_string(out, &p.ty.c_type);
        push_str(out, " ");
        push_string(out, &p.name);
    }
}

fn push_bridge_param_list(out: &mut String, params: &Vec<IrParam>)
    ensures
        final(out)@ == old(out)@ + param_list(bridge_params(params_view(params@))),
{
    let ghost ps = bridge_params(params_view(params@));
    if params.len() == 0 {
        push_str(out, "void");
        return;
    }
    let ghost start = out@;
    push_bridge_param(out, params, 0);
    proof {
        assert(param_decls(ps).take(1) =~= seq![param_decl(ps[0])]);
        assert(join(param_decls(ps).take(1), ", "@) == param_decl(ps[0]));
    }
    let mut i: usize = 1;
    while i < params.len()
        invariant
            1 <= i <= params.len(),
            ps == bridge_params(params_view(params@)),
            ps.len() == params@.len(),
            out@ == start + join(param_decls(ps).take(i as int), ", "@),
        decreases params.len() - i,
    {
        push_str(out, ", ");
        push_bridge_param(out, params, i);
        proof {
            let ds = param_decls(ps);
            assert(ds.take(i + 1).last() == param_decl(ps[i as int]));
            assert(ds.take(i + 1).drop_last() =~= ds.take(i as int));
        }
        i = i + 1;
    }
    assert(param_decls(ps).take(i as int) =~= param_decls(ps));
}

pub(crate) fn push_param_list_pub(out: &mut String, params: &Vec<IrParam>)
    ensures
        final(out)@ == old(out)@ + param_list(params_view(params@)),
{
    push_param_list(out, params);
}

pub(crate) fn push_bridge_param_list_pub(out: &mut String, params: &Vec<IrParam>)
    ensures
        final(out)@ == old(out)@ + param_list(bridge_params(params_view(params@))),
{
    push_bridge_param_list(out, params);
}

/// The declaration of `function`.
pub fn render_function_decl(function: &IrFunction) -> (r: String)
    ensures
        r@ == function_decl(function@),
{
    let mut out = String::new();
    push_string(&mut out, &function.returns.c_type);
    push_str(&mut out, " ");
    push_string(&mut out, &function.name);
    push_str(&mut out, "(");
    push_param_list(&mut out, &function.params);
    push_str(&mut out, ");");
    out
}

/// The declaration of the callback bridge of `function`.
pub fn render_bridge_decl(function: &IrFunction) -> (r: String)
    ensures
        r@ == function_decl(bridge_function(function@)),
{
    let mut out = String::new();
    push_string(&mut out, &function.returns.c_type);
    push_str(&mut out, " ");
    push_string(&mut out, &function.name);
    push_str(&mut out, "_bridge");
    push_str(&mut out, "(");
    push_bridge_param_list(&mut out, &function.params);
    push_str(&mut out, ");");
    out
}

/// The typedef of a callback type.
pub fn render_callback_decl(out: &mut String, callback: &IrCallback)
    ensures
        final(out)@ == old(out)@ + callback_decl(callback@),
{
    push_str(out, "typedef ");
    push_string(out, &callback.returns.c_type);
    push_str(out, " (*");
    push_string(out, &callback.name);
    push_str(out, ")(");
    push_param_list(out, &callback.params);
    push_str(out, ");\n\n");
}

pub fn takes_callback(function: &IrFunction) -> (b: bool)
    ensures
        b == has_callback_param(function@),
{
    let mut i: usize = 0;
    while i < function.params.len()
        invariant
            i <= function.params.len(),
            forall|k: int| 0 <= k < i ==> function@.params[k].ty.kind != IrTypeKind::Callback,
        decreases function.params.len() - i,
    {
        if function.params[i].ty.kind == IrTypeKind::Callback {
            assert(function@.params[i as int].ty.kind == IrTypeKind::Callback);
            return true;
        }
        i = i + 1;
    }
    false
}

// ---------------------------------------------------------------------------
// Deleters for opaque model values
// ---------------------------------------------------------------------------

/// The handle a destructor deletes.
pub open spec fn destructor_handle(f: IrFunctionV) -> Option<Seq<char>> {
    if f.kind == IrFunctionKind::Destructor && f.params.len() > 0 {
        f.params[0].ty.handle
    } else {
        None
    }
}

/// Whether values of handle `h` already have an owner that deletes them: a destructor
/// wrapper or a model projection.
pub open spec fn owned_handle(ps: Seq<ModelProjectionV>, fs: Seq<IrFunctionV>, h: Seq<char>) -> bool {
    (exists|i: int| 0 <= i < fs.len() && destructor_handle(fs[i]) == Some(h)) || (exists|k: int|
        0 <= k < ps.len() && ps[k].handle_name == h)
}

/// `cgowrap_<handle without Handle>_delete`
pub open spec fn delete_symbol(h: Seq<char>) -> Seq<char> {
    "cgowrap_"@ + (match strip_suffix(h, "Handle"@) {
        Some(b) => b,
        None => h,
    }) + "_delete"@
}

pub open spec fn returns_model_value(f: IrFunctionV, h: Seq<char>) -> bool {
    f.returns.kind == IrTypeKind::ModelValue && f.returns.handle == Some(h)
}

pub open spec fn has_symbol(fs: Seq<IrFunctionV>, s: Seq<char>) -> bool {
    exists|i: int| 0 <= i < fs.len() && fs[i].name == s
}

/// The conditions for a synthesized deleter of a model value handle `h`, apart from being
/// returned by value: it is among the `owned` handles where those are given, has no owner
/// yet, is not `covered` elsewhere and its symbol is free.
pub open spec fn delete_allowed(
    ps: Seq<ModelProjectionV>,
    fs: Seq<IrFunctionV>,
    covered: Seq<Seq<char>>,
    owned: Option<Seq<Seq<char>>>,
    h: Seq<char>,
) -> bool {
    &&& match owned {
        Some(o) => o.contains(h),
        None => true,
    }
    &&& !owned_handle(ps, fs, h)
    &&& !covered.contains(h)
    &&& !has_symbol(fs, delete_symbol(h))
}

/// Whether a deleter is synthesized for handle `h`.
pub open spec fn wants_delete(
    ps: Seq<ModelProjectionV>,
    fs: Seq<IrFunctionV>,
    covered: Seq<Seq<char>>,
    owned: Option<Seq<Seq<char>>>,
    h: Seq<char>,
) -> bool {
    (exists|i: int| 0 <= i < fs.len() && returns_model_value(fs[i], h)) && delete_allowed(
        ps,
        fs,
        covered,
        owned,
        h,
    )
}

/// `hs` lists the handles that get a deleter, each once, ascending.
pub open spec fn delete_order(
    ps: Seq<ModelProjectionV>,
    fs: Seq<IrFunctionV>,
    covered: Seq<Seq<char>>,
    owned: Option<Seq<Seq<char>>>,
    hs: Seq<Seq<char>>,
) -> bool {
    &&& sorted_strict(hs)
    &&& forall|h: Seq<char>| hs.contains(h) <==> wants_delete(ps, fs, covered, owned, h)
}

fn handle_owned(ctx: &PipelineContext, functions: &Vec<IrFunction>, h: &[char]) -> (b: bool)
    ensures
        b == owned_handle(ctx@.known_model_projections, functions_view(functions@), h@),
{
    let ghost fs = functions_view(functions@);
    let mut i: usize = 0;
    while i < functions.len()
        invariant
            i <= functions.len(),
            fs == functions_view(functions@),
            forall|k: int| 0 <= k < i ==> destructor_handle(fs[k]) != Some(h@),
        decreases functions.len() - i,
    {
        let f = &functions[i];
        assert(fs[i as int] == f@);
        if f.kind == IrFunctionKind::Destructor && f.params.len() > 0 {
            match &f.params[0].ty.handle {
                Some(d) => {
                    let dv = chars_of(d.as_str());
                    if seq_eq(dv.as_slice(), h) {
                        return true;
                    }
                },
                None => {},
            }
        }
        i = i + 1;
    }
    let ghost ps = ctx@.known_model_projections;
    let mut k: usize = 0;
    while k < ctx.known_model_projections.len()
        invariant
            k <= ctx.known_model_projections.len(),
            ps == ctx@.known_model_projections,
            forall|q: int| 0 <= q < k ==> ps[q].handle_name != h@,
        decreases ctx.known_model_projections.len() - k,
    {
        let hv = chars_of(ctx.known_model_projections[k].handle_name.as_str());
        assert(ps[k as int].handle_name == hv@);
        if seq_eq(hv.as_slice(), h) {
            return true;
        }
        k = k + 1;
    }
    false
}

fn symbol_taken(functions: &Vec<IrFunction>, s: &[char]) -> (b: bool)
    ensures
        b == has_symbol(functions_view(functions@), s@),
{
    let ghost fs = functions_view(functions@);
    let mut i: usize = 0;
    while i < functions.len()
        invariant
            i <= functions.len(),
            fs == functions_view(functions@),
            forall|k: int| 0 <= k < i ==> fs[k].name != s@,
        decreases functions.len() - i,
    {
        let n = chars_of(functions[i].name.as_str());
        assert(fs[i as int].name == n@);
        if seq_eq(n.as_slice(), s) {
            return true;
        }
        i = i + 1;
    }
    false
}

/// The deleter symbol of a handle.
pub fn opaque_delete_symbol(handle_name: &str) -> (r: String)
    ensures
        r@ == delete_symbol(handle_name@),
{
    let hv = chars_of(handle_name);
    let mut out = String::from_str("cgowrap_");
    match strip_suffix_lit(hv.as_slice(), "Handle") {
        Some(b) => push_chars(&mut out, b.as_slice()),
        None => push_str(&mut out, handle_name),
    }
    push_str(&mut out, "_delete");
    out
}

fn delete_allowed_exec(
    ctx: &PipelineContext,
    functions: &Vec<IrFunction>,
    covered: &Vec<String>,
    owned: Option<&Vec<String>>,
    h: &String,
) -> (b: bool)
    ensures
        b == delete_allowed(
            ctx@.known_model_projections,
            functions_view(functions@),
            strs(covered@),
            match owned {
                Some(o) => Some(strs(o@)),
                None => None,
            },
            h@,
        ),
{
    let hv = chars_of(h.as_str());
    match owned {
        Some(o) => {
            if !contains_str(o, hv.as_slice()) {
                return false;
            }
        },
        None => {},
    }
    if handle_owned(ctx, functions, hv.as_slice()) {
        return false;
    }
    if contains_str(covered, hv.as_slice()) {
        return false;
    }
    let sym = opaque_delete_symbol(h.as_str());
    let sv = chars_of(sym.as_str());
    !symbol_taken(functions, sv.as_slice())
}

/// The handles of opaque model values that get a synthesized deleter, ascending.
pub fn synthetic_delete_handles(
    ctx: &PipelineContext,
    functions: &Vec<IrFunction>,
    covered: &Vec<String>,
    owned: Option<&Vec<String>>,
) -> (r: Vec<String>)
    ensures
        delete_order(
            ctx@.known_model_projections,
            functions_view(functions@),
            strs(covered@),
            match owned {
                Some(o) => Some(strs(o@)),
                None => None,
            },
            strs(r@),
        ),
{
    let ghost fs = functions_view(functions@);
    let ghost ps = ctx@.known_model_projections;
    let ghost cov = strs(covered@);
    let ghost own = match owned {
        Some(o) => Some(strs(o@)),
        None => None,
    };
    let mut hs: Vec<String> = Vec::new();
    let mut i: usize = 0;
    while i < functions.len()
        invariant
            i <= functions.len(),
            fs == functions_view(functions@),
            ps == ctx@.known_model_projections,
            cov == strs(covered@),
            own == (match owned {
                Some(o) => Some(strs(o@)),
                None => None::<Seq<Seq<char>>>,
            }),
            sorted_strict(strs(hs@)),
            forall|h: Seq<char>|
                strs(hs@).contains(h) <==> ((exists|k: int| 0 <= k < i && returns_model_value(fs[k], h))
                    && delete_allowed(ps, fs, cov, own, h)),
        decreases functions.len() - i,
    {
        let f = &functions[i];
        assert(fs[i as int] == f@);
        let ghost before = strs(hs@);
        if f.returns.kind == IrTypeKind::ModelValue {
            match &f.returns.handle {
                Some(h) => {
                    if delete_allowed_exec(ctx, functions, covered, owned, h) {
                        insert_sorted_handle(&mut hs, h);
                    }
                },
                None => {},
            }
        }
        proof {
            assert forall|h: Seq<char>|
                strs(hs@).contains(h) <==> ((exists|k: int| 0 <= k < i + 1 && returns_model_value(fs[k], h))
                    && delete_allowed(ps, fs, cov, own, h)) by {
                if returns_model_value(fs[i as int], h) {
                    assert(0 <= i < i + 1);
                }
                if exists|k: int| 0 <= k < i + 1 && returns_model_value(fs[k], h) {
                    let k = choose|k: int| 0 <= k < i + 1 && returns_model_value(fs[k], h);
                    if k < i {
                        assert(exists|k: int| 0 <= k < i && returns_model_value(fs[k], h));
                    }
                }
            }
        }
        i = i + 1;
    }
    hs
}

fn insert_sorted_handle(v: &mut Vec<String>, x: &String)
    requires
        sorted_strict(strs(old(v)@)),
    ensures
        sorted_strict(strs(final(v)@)),
        forall|y: Seq<char>| strs(final(v)@).contains(y) <==> (strs(old(v)@).contains(y) || y == x@),
{
    crate::analysis::insert_sorted(v, x);
}

// ---------------------------------------------------------------------------
// The header
// ---------------------------------------------------------------------------

/// Every character mapped to its Unicode uppercase.
pub open spec fn upper_all(s: Seq<char>) -> Seq<char>
    decreases s.len(),
{
    if s.len() == 0 {
        seq![]
    } else {
        upper_all(s.drop_last()) + uppercase_mapping(s.last())
    }
}

pub open spec fn dots_to_underscores(s: Seq<char>) -> Seq<char> {
    Seq::new(s.len(), |i: int| if s[i] == '.' { '_' } else { s[i] })
}

/// The include guard: `CGOWRAP_` and the header file name, dots as underscores,
/// upper-cased.
pub open spec fn header_guard(header: Seq<char>) -> Seq<char> {
    "CGOWRAP_"@ + upper_all(dots_to_underscores(header))
}

pub fn render_header_guard(header: &str) -> (r: String)
    ensures
        r@ == header_guard(header@),
{
    let v = chars_of(header);
    let mut out = String::from_str("CGOWRAP_");
    let ghost start = out@;
    let ghost d = dots_to_underscores(v@);
    let mut i: usize = 0;
    while i < v.len()
        invariant
            i <= v.len(),
            d == dots_to_underscores(v@),
            out@ == start + upper_all(d.take(i as int)),
        decreases v.len() - i,
    {
        let c = if v[i] == '.' {
            '_'
        } else {
            v[i]
        };
        assert(d[i as int] == c);
        assert(d.take(i + 1).drop_last() =~= d.take(i as int));
        let u = char_to_uppercase(c);
        push_string(&mut out, &u);
        i = i + 1;
    }
    assert(d.take(i as int) =~= d);
    out
}

pub open spec fn typedefs_text(os: Seq<(Seq<char>, Seq<char>)>) -> Seq<char>
    decreases os.len(),
{
    if os.len() == 0 {
        seq![]
    } else {
        typedefs_text(os.drop_last()) + "typedef struct "@ + os.last().0 + " "@ + os.last().0
            + ";\n"@
    }
}

pub open spec fn callbacks_text(cs: Seq<IrCallbackV>) -> Seq<char>
    decreases cs.len(),
{
    if cs.len() == 0 {
        seq![]
    } else {
        callbacks_text(cs.drop_last()) + callback_decl(cs.last())
    }
}

pub open spec fn decls_text(fs: Seq<IrFunctionV>) -> Seq<char>
    decreases fs.len(),
{
    if fs.len() == 0 {
        seq![]
    } else {
        decls_text(fs.drop_last()) + function_decl(fs.last()) + "\n"@
    }
}

pub open spec fn delete_decls_text(hs: Seq<Seq<char>>) -> Seq<char>
    decreases hs.len(),
{
    if hs.len() == 0 {
        seq![]
    } else {
        delete_decls_text(hs.drop_last()) + "void "@ + delete_symbol(hs.last()) + "("@
            + hs.last() + "* self);\n"@
    }
}

pub open spec fn bridge_decls_text(fs: Seq<IrFunctionV>) -> Seq<char>
    decreases fs.len(),
{
    if fs.len() == 0 {
        seq![]
    } else {
        bridge_decls_text(fs.drop_last()) + (if has_callback_param(fs.last()) {
            function_decl(bridge_function(fs.last())) + "\n"@
        } else {
            seq![]
        })
    }
}

pub open spec fn returns_kind(fs: Seq<IrFunctionV>, k: IrTypeKind) -> bool {
    exists|i: int| 0 <= i < fs.len() && fs[i].returns.kind == k
}

/// A `struct timeval` reached by pointer or reference.
pub open spec fn timeval_type(t: IrTypeV) -> bool {
    (t.kind == IrTypeKind::ExternStructReference || t.kind == IrTypeKind::ExternStructPointer)
        && base_model(t.c_type) == "struct timeval"@
}

pub open spec fn params_use_timeval(ps: Seq<IrParamV>) -> bool {
    exists|j: int| 0 <= j < ps.len() && timeval_type(ps[j].ty)
}

/// Whether any function or callback takes or returns a `struct timeval`.
pub open spec fn uses_timeval(m: IrModuleV) -> bool {
    (exists|i: int|
        0 <= i < m.functions.len() && (timeval_type(m.functions[i].returns) || params_use_timeval(
            m.functions[i].params,
        ))) || (exists|i: int|
        0 <= i < m.callbacks.len() && (timeval_type(m.callbacks[i].returns) || params_use_timeval(
            m.callbacks[i].params,
        )))
}

/// The generated header, with the deleters of `hs`.
pub open spec fn header_text(header: Seq<char>, m: IrModuleV, hs: Seq<Seq<char>>) -> Seq<char> {
    let g = header_guard(header);
    "#ifndef "@ + g + "\n#define "@ + g + "\n\n"@
        + "#include <stdbool.h>\n#include <stddef.h>\n#include <stdint.h>\n#include <stdlib.h>\n\n"@
        + (if uses_timeval(m) {
        "#include <sys/time.h>\n\n"@
    } else {
        seq![]
    }) + "#ifdef __cplusplus\nextern \"C\" {\n#endif\n\n"@ + typedefs_text(m.opaque_types) + (
    if m.opaque_types.len() > 0 {
        "\n"@
    } else {
        seq![]
    }) + callbacks_text(m.callbacks) + decls_text(m.functions) + delete_decls_text(hs)
        + bridge_decls_text(m.functions) + (if returns_kind(m.functions, IrTypeKind::String) {
        "void cgowrap_string_free(char* value);\n\n"@
    } else {
        seq![]
    }) + (if returns_kind(m.functions, IrTypeKind::FixedByteArray) {
        "static inline void cgowrap_byte_array_free(uint8_t* value) { free(value); }\n\n"@
    } else {
        seq![]
    }) + (if returns_kind(m.functions, IrTypeKind::FixedArray) || returns_kind(
        m.functions,
        IrTypeKind::FixedModelArray,
    ) {
        "static inline void cgowrap_array_free(void* value) { free(value); }\n\n"@
    } else {
        seq![]
    }) + "#ifdef __cplusplus\n}\n#endif\n\n"@ + "#endif /* "@ + g + " */\n"@
}

pub fn is_timeval(t: &IrType) -> (b: bool)
    ensures
        b == timeval_type(t@),
{
    if t.kind != IrTypeKind::ExternStructReference && t.kind != IrTypeKind::ExternStructPointer {
        return false;
    }
    let v = chars_of(t.c_type.as_str());
    let b = base_model_vec(v.as_slice());
    eq_lit(b.as_slice(), "struct timeval")
}

pub fn params_timeval(params: &Vec<IrParam>) -> (b: bool)
    ensures
        b == params_use_timeval(params_view(params@)),
{
    let mut j: usize = 0;
    while j < params.len()
        invariant
            j <= params.len(),
            forall|k: int| 0 <= k < j ==> !timeval_type(params_view(params@)[k].ty),
        decreases params.len() - j,
    {
        if is_timeval(&params[j].ty) {
            assert(timeval_type(params_view(params@)[j as int].ty));
            return true;
        }
        j = j + 1;
    }
    false
}

/// Whether the module takes or returns a `struct timeval` anywhere.
pub fn ir_uses_struct_timeval(ir: &IrModule) -> (b: bool)
    ensures
        b == uses_timeval(module_view(*ir)),
{
    let ghost m = module_view(*ir);
    let mut i: usize = 0;
    while i < ir.functions.len()
        invariant
            i <= ir.functions.len(),
            m == module_view(*ir),
            forall|k: int|
                0 <= k < i ==> !(timeval_type(m.functions[k].returns) || params_use_timeval(
                    m.functions[k].params,
                )),
        decreases ir.functions.len() - i,
    {
        let f = &ir.functions[i];
        assert(m.functions[i as int] == f@);
        if is_timeval(&f.returns) || params_timeval(&f.params) {
            return true;
        }
        i = i + 1;
    }
    let mut i: usize = 0;
    while i < ir.callbacks.len()
        invariant
            i <= ir.callbacks.len(),
            m == module_view(*ir),
            forall|k: int|
                0 <= k < m.functions.len() ==> !(timeval_type(m.functions[k].returns)
                    || params_use_timeval(m.functions[k].params)),
            forall|k: int|
                0 <= k < i ==> !(timeval_type(m.callbacks[k].returns) || params_use_timeval(
                    m.callbacks[k].params,
                )),
        decreases ir.callbacks.len() - i,
    {
        let c = &ir.callbacks[i];
        assert(m.callbacks[i as int] == c@);
        if is_timeval(&c.returns) || params_timeval(&c.params) {
            return true;
        }
        i = i + 1;
    }
    false
}

pub fn any_returns_kind(functions: &Vec<IrFunction>, k: IrTypeKind) -> (b: bool)
    ensures
        b == returns_kind(functions_view(functions@), k),
{
    let ghost fs = functions_view(functions@);
    let mut i: usize = 0;
    while i < functions.len()
        invariant
            i <= functions.len(),
            fs == functions_view(functions@),
            forall|q: int| 0 <= q < i ==> fs[q].returns.kind != k,
        decreases functions.len() - i,
    {
        assert(fs[i as int].returns.kind == functions@[i as int].returns.kind);
        if functions[i].returns.kind == k {
            return true;
        }
        i = i + 1;
    }
    false
}

fn push_typedefs(out: &mut String, ir: &IrModule)
    ensures
        final(out)@ == old(out)@ + typedefs_text(module_view(*ir).opaque_types),
{
    let ghost os = module_view(*ir).opaque_types;
    let ghost start = out@;
    let mut i: usize = 0;
    assert(os.take(0) =~= Seq::<(Seq<char>, Seq<char>)>::empty());
    while i < ir.opaque_types.len()
        invariant
            i <= ir.opaque_types.len(),
            os == module_view(*ir).opaque_types,
            out@ == start + typedefs_text(os.take(i as int)),
        decreases ir.opaque_types.len() - i,
    {
        let o = &ir.opaque_types[i];
        assert(os[i as int].0 == o.name@);
        assert(os.take(i + 1).drop_last() =~= os.take(i as int));
        push_str(out, "typedef struct ");
        push_string(out, &o.name);
        push_str(out, " ");
        push_string(out, &o.name);
        push_str(out, ";\n");
        i = i + 1;
    }
    assert(os.take(i as int) =~= os);
}

fn push_callbacks(out: &mut String, ir: &IrModule)
    ensures
        final(out)@ == old(out)@ + callbacks_text(module_view(*ir).callbacks),
{
    let ghost cs = module_view(*ir).callbacks;
    let ghost start = out@;
    let mut i: usize = 0;
    assert(cs.take(0) =~= Seq::<IrCallbackV>::empty());
    while i < ir.callbacks.len()
        invariant
            i <= ir.callbacks.len(),
            cs == module_view(*ir).callbacks,
            out@ == start + callbacks_text(cs.take(i as int)),
        decreases ir.callbacks.len() - i,
    {
        assert(cs[i as int] == ir.callbacks@[i as int]@);
        assert(cs.take(i + 1).drop_last() =~= cs.take(i as int));
        render_callback_decl(out, &ir.callbacks[i]);
        i = i + 1;
    }
    assert(cs.take(i as int) =~= cs);
}

fn push_decls(out: &mut String, functions: &Vec<IrFunction>)
    ensures
        final(out)@ == old(out)@ + decls_text(functions_view(functions@)),
{
    let ghost fs = functions_view(functions@);
    let ghost start = out@;
    let mut i: usize = 0;
    assert(fs.take(0) =~= Seq::<IrFunctionV>::empty());
    while i < functions.len()
        invariant
            i <= functions.len(),
            fs == functions_view(functions@),
            out@ == start + decls_text(fs.take(i as int)),
        decreases functions.len() - i,
    {
        assert(fs[i as int] == functions@[i as int]@);
        assert(fs.take(i + 1).drop_last() =~= fs.take(i as int));
        let d = render_function_decl(&functions[i]);
        push_string(out, &d);
        push_str(out, "\n");
        i = i + 1;
    }
    assert(fs.take(i as int) =~= fs);
}

fn push_bridge_decls(out: &mut String, functions: &Vec<IrFunction>)
    ensures
        final(out)@ == old(out)@ + bridge_decls_text(functions_view(functions@)),
{
    let ghost fs = functions_view(functions@);
    let ghost start = out@;
    let mut i: usize = 0;
    assert(fs.take(0) =~= Seq::<IrFunctionV>::empty());
    while i < functions.len()
        invariant
            i <= functions.len(),
            fs == functions_view(functions@),
            out@ == start + bridge_decls_text(fs.take(i as int)),
        decreases functions.len() - i,
    {
        assert(fs[i as int] == functions@[i as int]@);
        assert(fs.take(i + 1).drop_last() =~= fs.take(i as int));
        if takes_callback(&functions[i]) {
            let d = render_bridge_decl(&functions[i]);
            push_string(out, &d);
            push_str(out, "\n");
        } else {
            assert(out@ + Seq::<char>::empty() =~= out@);
        }
        i = i + 1;
    }
    assert(fs.take(i as int) =~= fs);
}

fn push_delete_decls(out: &mut String, hs: &Vec<String>)
    ensures
        final(out)@ == old(out)@ + delete_decls_text(strs(hs@)),
{
    let ghost s = strs(hs@);
    let ghost start = out@;
    let mut i: usize = 0;
    assert(s.take(0) =~= Seq::<Seq<char>>::empty());
    while i < hs.len()
        invariant
            i <= hs.len(),
            s == strs(hs@),
            out@ == start + delete_decls_text(s.take(i as int)),
        decreases hs.len() - i,
    {
        assert(s[i as int] == hs@[i as int]@);
        assert(s.take(i + 1).drop_last() =~= s.take(i as int));
        let sym = opaque_delete_symbol(hs[i].as_str());
        push_str(out, "void ");
        push_string(out, &sym);
        push_str(out, "(");
        push_string(out, &hs[i]);
        push_str(out, "* self);\n");
        i = i + 1;
    }
    assert(s.take(i as int) =~= s);
}

/// The header for a module, declaring deleters for the handles `hs`.
pub fn render_header_with_deletes(ctx: &PipelineContext, ir: &IrModule, hs: &Vec<String>) -> (r:
    String)
    ensures
        r@ == header_text(ctx@.config.output.header, module_view(*ir), strs(hs@)),
{
    let ghost m = module_view(*ir);
    let guard = render_header_guard(ctx.config.output.header.as_str());
    let mut out = String::from_str("#ifndef ");
    push_string(&mut out, &guard);
    push_str(&mut out, "\n#define ");
    push_string(&mut out, &guard);
    push_str(&mut out, "\n\n");
    push_str(
        &mut out,
        "#include <stdbool.h>\n#include <stddef.h>\n#include <stdint.h>\n#include <stdlib.h>\n\n",
    );
    if ir_uses_struct_timeval(ir) {
        push_str(&mut out, "#include <sys/time.h>\n\n");
    } else {
        assert(out@ + Seq::<char>::empty() =~= out@);
    }
    push_str(&mut out, "#ifdef __cplusplus\nextern \"C\" {\n#endif\n\n");
    push_typedefs(&mut out, ir);
    if ir.opaque_types.len() > 0 {
        push_str(&mut out, "\n");
    } else {
        assert(out@ + Seq::<char>::empty() =~= out@);
    }
    push_callbacks(&mut out, ir);
    push_decls(&mut out, &ir.functions);
    push_delete_decls(&mut out, hs);
    push_bridge_decls(&mut out, &ir.functions);
    if any_returns_kind(&ir.functions, IrTypeKind::String) {
        push_str(&mut out, "void cgowrap_string_free(char* value);\n\n");
    } else {
        assert(out@ + Seq::<char>::empty() =~= out@);
    }
    if any_returns_kind(&ir.functions, IrTypeKind::FixedByteArray) {
        push_str(
            &mut out,
            "static inline void cgowrap_byte_array_free(uint8_t* value) { free(value); }\n\n",
        );
    } else {
        assert(out@ + Seq::<char>::empty() =~= out@);
    }
    if any_returns_kind(&ir.functions, IrTypeKind::FixedArray) || any_returns_kind(
        &ir.functions,
        IrTypeKind::FixedModelArray,
    ) {
        push_str(&mut out, "static inline void cgowrap_array_free(void* value) { free(value); }\n\n");
    } else {
        assert(out@ + Seq::<char>::empty() =~= out@);
    }
    push_str(&mut out, "#ifdef __cplusplus\n}\n#endif\n\n");
    push_str(&mut out, "#endif /* ");
    push_string(&mut out, &guard);
    push_str(&mut out, " */\n");
    out
}

/// The C header of a module: include guard, standard includes, opaque handle and callback
/// typedefs, every wrapper declaration, deleters for opaque model values that have no
/// other owner, callback bridges and the free helpers the results need.
pub fn render_header(ctx: &PipelineContext, ir: &IrModule) -> (r: String)
    ensures
        exists|hs: Seq<Seq<char>>|
            delete_order(
                ctx@.known_model_projections,
                module_view(*ir).functions,
                seq![],
                None,
                hs,
            ) && r@ == header_text(ctx@.config.output.header, module_view(*ir), hs),
{
    let covered: Vec<String> = Vec::new();
    let hs = synthetic_delete_handles(ctx, &ir.functions, &covered, None);
    assert(strs(covered@) =~= Seq::<Seq<char>>::empty());
    render_header_with_deletes(ctx, ir, &hs)
}

} // verus!
