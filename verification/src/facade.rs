//! The Go facade over the C ABI: return signatures, enum and constant blocks, export-name
//! collisions and the analysis of wrapped classes.
use vstd::prelude::*;

use crate::assemble::{
    lex_lt, collision_entries, duplicated, duplicated_names, keyed_entry, origins, sorted_strict,
    symbols_distinct,
};
use crate::case::{go_export, go_export_name, vviews};
use crate::context::{owner_listed, PipelineContext, PipelineContextV};
use crate::gotypes::{
    array_go_elem, facade_export, fixed_array_go_elem_type, go_model_return_type,
    go_pointer_return, go_pointer_return_type, go_type_for_ir, go_type_ir, go_value,
    go_value_type, leaf, leaf_cpp_name, model_go_name, receiver_bound_ok, zero_value,
    zero_value_for_go_type,
};
use crate::ir::{
    functions_view, opt_view, strs, variants_view, IrEnum, IrEnumV, IrFunction, IrFunctionV,
    IrMacroConstant, IrType, IrTypeV,
};
use crate::kind::{IrFunctionKind, IrTypeKind};
use crate::text::{join, push_str, push_string, views};

verus! {

// ---------------------------------------------------------------------------
// Return signatures
// ---------------------------------------------------------------------------

pub open spec fn is_model_kind(k: IrTypeKind) -> bool {
    k == IrTypeKind::ModelReference || k == IrTypeKind::ModelPointer || k == IrTypeKind::ModelValue
}

pub fn is_model_wrapper_return(ty: &IrType) -> (b: bool)
    ensures
        b == is_model_kind(ty@.kind),
{
    match ty.kind {
        IrTypeKind::ModelReference | IrTypeKind::ModelPointer | IrTypeKind::ModelValue => true,
        _ => false,
    }
}

/// A model value is always owned by the caller; a model pointer only where the callable is
/// listed under `input.owner`.
pub open spec fn owned_model_return(ctx: PipelineContextV, f: IrFunctionV, t: IrTypeV) -> bool {
    t.kind == IrTypeKind::ModelValue || (t.kind == IrTypeKind::ModelPointer && owner_listed(
        ctx.config.input.owner,
        f.cpp_name,
    ))
}

pub fn model_return_is_owned(ctx: &PipelineContext, function: &IrFunction, ty: &IrType) -> (b: bool)
    ensures
        b == owned_model_return(ctx@, function@, ty@),
{
    ty.kind == IrTypeKind::ModelValue || (ty.kind == IrTypeKind::ModelPointer
        && ctx.owner_marks_callable(function.cpp_name.as_str()))
}

/// An owned model pointer is wrapped inline rather than through the owned-value helper.
pub fn model_return_uses_inline_owned_literal(
    ctx: &PipelineContext,
    function: &IrFunction,
    ty: &IrType,
) -> (b: bool)
    ensures
        b == (ty@.kind == IrTypeKind::ModelPointer && owner_listed(
            ctx@.config.input.owner,
            function@.cpp_name,
        )),
{
    ty.kind == IrTypeKind::ModelPointer && ctx.owner_marks_callable(function.cpp_name.as_str())
}

/// The Go result list of a facade function: empty for `void`, `(T, error)` for strings and
/// arrays, the wrapper pointer for models, else the Go value type (`int32` by default).
pub open spec fn return_sig(ctx: PipelineContextV, t: IrTypeV) -> Seq<char> {
    match t.kind {
        IrTypeKind::Void => seq![],
        IrTypeKind::String | IrTypeKind::CString => "(string, error)"@,
        IrTypeKind::FixedByteArray => "([]byte, error)"@,
        IrTypeKind::FixedArray => "([]"@ + array_go_elem(t) + ", error)"@,
        IrTypeKind::FixedModelArray => "([]*"@ + model_go_name(ctx, t) + ", error)"@,
        IrTypeKind::Pointer => match go_pointer_return(t) {
            Some(g) => g,
            None => seq![],
        },
        _ => if is_model_kind(t.kind) {
            if model_go_name(ctx, t) == "unsafe.Pointer"@ {
                "unsafe.Pointer"@
            } else {
                "*"@ + model_go_name(ctx, t)
            }
        } else {
            match go_value(ctx, t) {
                Some(g) => g,
                None => "int32"@,
            }
        },
    }
}

pub fn go_return_sig(ctx: &PipelineContext, ty: &IrType) -> (r: String)
    ensures
        r@ == return_sig(ctx@, ty@),
{
    match ty.kind {
        IrTypeKind::Void => String::new(),
        IrTypeKind::String | IrTypeKind::CString => String::from_str("(string, error)"),
        IrTypeKind::FixedByteArray => String::from_str("([]byte, error)"),
        IrTypeKind::FixedArray => {
            let mut out = String::from_str("([]");
            push_str(&mut out, fixed_array_go_elem_type(ty));
            push_str(&mut out, ", error)");
            out
        },
        IrTypeKind::FixedModelArray => {
            let mut out = String::from_str("([]*");
            let g = go_model_return_type(ctx, ty);
            push_string(&mut out, &g);
            push_str(&mut out, ", error)");
            out
        },
        IrTypeKind::Pointer => match go_pointer_return_type(ty) {
            Some(g) => g,
            None => String::new(),
        },
        _ => {
            if is_model_wrapper_return(ty) {
                let g = go_model_return_type(ctx, ty);
                if crate::text::str_eq(g.as_str(), "unsafe.Pointer") {
                    String::from_str("unsafe.Pointer")
                } else {
                    let mut out = String::from_str("*");
                    push_string(&mut out, &g);
                    out
                }
            } else {
                match go_value_type(ctx, ty) {
                    Some(g) => g,
                    None => String::from_str("int32"),
                }
            }
        },
    }
}

/// What a method returns when its receiver is nil.
pub open spec fn nil_return(t: IrTypeV) -> Seq<char> {
    match t.kind {
        IrTypeKind::Void => "return"@,
        IrTypeKind::String | IrTypeKind::CString => "return \"\", errors.New(\"facade receiver is nil\")"@,
        IrTypeKind::FixedByteArray | IrTypeKind::FixedArray | IrTypeKind::FixedModelArray =>
            "return nil, errors.New(\"facade receiver is nil\")"@,
        IrTypeKind::Pointer => "return nil"@,
        _ => if is_model_kind(t.kind) {
            "return nil"@
        } else {
            "return "@ + zero_value(
                match go_type_ir(t) {
                    Some(g) => g,
                    None => "int32"@,
                },
            )
        },
    }
}

pub fn go_nil_return_stmt(ty: &IrType) -> (r: String)
    ensures
        r@ == nil_return(ty@),
{
    match ty.kind {
        IrTypeKind::Void => String::from_str("return"),
        IrTypeKind::String | IrTypeKind::CString => String::from_str(
            "return \"\", errors.New(\"facade receiver is nil\")",
        ),
        IrTypeKind::FixedByteArray | IrTypeKind::FixedArray | IrTypeKind::FixedModelArray =>
            String::from_str("return nil, errors.New(\"facade receiver is nil\")"),
        IrTypeKind::Pointer => String::from_str("return nil"),
        _ => {
            if is_model_wrapper_return(ty) {
                String::from_str("return nil")
            } else {
                let g = match go_type_for_ir(ty) {
                    Some(g) => g,
                    None => "int32",
                };
                let mut out = String::from_str("return ");
                push_str(&mut out, zero_value_for_go_type(g));
                out
            }
        },
    }
}

// ---------------------------------------------------------------------------
// Constants and enums
// ---------------------------------------------------------------------------

pub open spec fn constant_lines(cs: Seq<(Seq<char>, Seq<char>)>) -> Seq<char>
    decreases cs.len(),
{
    if cs.len() == 0 {
        seq![]
    } else {
        constant_lines(cs.drop_last()) + "    "@ + cs.last().0 + " = "@ + cs.last().1 + "\n"@
    }
}

pub open spec fn constants_view(v: Seq<IrMacroConstant>) -> Seq<(Seq<char>, Seq<char>)> {
    v.map_values(|c: IrMacroConstant| (c.name@, c.value@))
}

/// One `const` block with a `name = value` line per macro constant.
pub open spec fn constants_text(cs: Seq<(Seq<char>, Seq<char>)>) -> Seq<char> {
    "const (\n"@ + constant_lines(cs) + ")\n"@
}

pub fn render_go_constants(constants: &Vec<IrMacroConstant>) -> (r: String)
    ensures
        r@ == constants_text(constants_view(constants@)),
{
    let ghost cs = constants_view(constants@);
    let mut out = String::from_str("const (\n");
    let mut i: usize = 0;
    while i < constants.len()
        invariant
            i <= constants.len(),
            cs == constants_view(constants@),
            out@ == "const (\n"@ + constant_lines(cs.take(i as int)),
        decreases constants.len() - i,
    {
        assert(cs.take(i + 1).drop_last() =~= cs.take(i as int));
        push_str(&mut out, "    ");
        push_string(&mut out, &constants[i].name);
        push_str(&mut out, " = ");
        push_string(&mut out, &constants[i].value);
        push_str(&mut out, "\n");
        i = i + 1;
    }
    assert(cs.take(i as int) =~= cs);
    push_str(&mut out, ")\n");
    out
}

pub open spec fn variant_value(v: Option<Seq<char>>) -> Seq<char> {
    match v {
        Some(x) => x,
        None => "0"@,
    }
}

/// Variant lines; `ty` between name and value where the enum is named.
pub open spec fn variant_lines(vs: Seq<(Seq<char>, Option<Seq<char>>)>, ty: Option<Seq<char>>) -> Seq<
    char,
>
    decreases vs.len(),
{
    if vs.len() == 0 {
        seq![]
    } else {
        variant_lines(vs.drop_last(), ty) + "    "@ + vs.last().0 + match ty {
            Some(t) => " "@ + t,
            None => seq![],
        } + " = "@ + variant_value(vs.last().1) + "\n"@
    }
}

/// An anonymous enum is a `const` block; a named one a Go `int64` type named after the
/// C++ leaf name, with typed constants.
pub open spec fn enum_text(e: IrEnumV) -> Seq<char> {
    if e.is_anonymous {
        "const (\n"@ + variant_lines(e.variants, None) + ")\n"@
    } else {
        "type "@ + leaf(e.cpp_name) + " int64\n\n"@ + "const (\n"@ + variant_lines(
            e.variants,
            Some(leaf(e.cpp_name)),
        ) + ")\n"@
    }
}

pub fn render_go_enum(item: &IrEnum) -> (r: String)
    ensures
        r@ == enum_text(item@),
{
    let ghost vs = variants_view(item.variants@);
    let mut out = String::new();
    let name = leaf_cpp_name(item.cpp_name.as_str());
    let ghost ty: Option<Seq<char>> = if item.is_anonymous {
        None
    } else {
        Some(name@)
    };
    if !item.is_anonymous {
        push_str(&mut out, "type ");
        push_string(&mut out, &name);
        push_str(&mut out, " int64\n\n");
    }
    let ghost head = out@;
    push_str(&mut out, "const (\n");
    let mut i: usize = 0;
    while i < item.variants.len()
        invariant
            i <= item.variants.len(),
            vs == variants_view(item.variants@),
            ty == (if item.is_anonymous { None } else { Some(name@) }),
            out@ == head + "const (\n"@ + variant_lines(vs.take(i as int), ty),
        decreases item.variants.len() - i,
    {
        assert(vs.take(i + 1).drop_last() =~= vs.take(i as int));
        let v = &item.variants[i];
        push_str(&mut out, "    ");
        push_string(&mut out, &v.name);
        if !item.is_anonymous {
            push_str(&mut out, " ");
            push_string(&mut out, &name);
        }
        push_str(&mut out, " = ");
        match &v.value {
            Some(x) => push_string(&mut out, x),
            None => push_str(&mut out, "0"),
        }
        push_str(&mut out, "\n");
        i = i + 1;
    }
    assert(vs.take(i as int) =~= vs);
    push_str(&mut out, ")\n");
    out
}

// ---------------------------------------------------------------------------
// Export-name collisions
// ---------------------------------------------------------------------------

/// Strictly sorted sequences with the same elements are equal.
pub proof fn lemma_sorted_set_unique(a: Seq<Seq<char>>, b: Seq<Seq<char>>)
    requires
        sorted_strict(a),
        sorted_strict(b),
        forall|x: Seq<char>| a.contains(x) <==> b.contains(x),
    ensures
        a == b,
    decreases a.len(),
{
    if a.len() == 0 {
        if b.len() > 0 {
            assert(b.contains(b[0]));
        }
        assert(a =~= b);
    } else {
        assert(a.contains(a[0]));
        assert(b.len() > 0);
        assert(b.contains(b[0]));
        if a[0] != b[0] {
            let i = choose|i: int| 0 <= i < a.len() && a[i] == b[0];
            let j = choose|j: int| 0 <= j < b.len() && b[j] == a[0];
            assert(i > 0);
            assert(j > 0);
            assert(lex_lt(a[0], a[i]));
            assert(lex_lt(b[0], b[j]));
            crate::assemble::lemma_lex_total(a[0], b[0]);
        }
        let a1 = a.drop_first();
        let b1 = b.drop_first();
        assert forall|x: Seq<char>| a1.contains(x) <==> b1.contains(x) by {
            if a1.contains(x) {
                let i = choose|i: int| 0 <= i < a1.len() && a1[i] == x;
                assert(a[i + 1] == x);
                assert(lex_lt(a[0], a[i + 1]));
                crate::assemble::lemma_lex_total(x, x);
                assert(b.contains(x));
                let j = choose|j: int| 0 <= j < b.len() && b[j] == x;
                assert(j != 0);
                assert(b1[j - 1] == x);
            }
            if b1.contains(x) {
                let j = choose|j: int| 0 <= j < b1.len() && b1[j] == x;
                assert(b[j + 1] == x);
                assert(lex_lt(b[0], b[j + 1]));
                crate::assemble::lemma_lex_total(x, x);
                assert(a.contains(x));
                let i = choose|i: int| 0 <= i < a.len() && a[i] == x;
                assert(i != 0);
                assert(a1[i - 1] == x);
            }
        }
        assert forall|p: int, q: int| 0 <= p < q < a1.len() implies lex_lt(a1[p], a1[q]) by {
            assert(a1[p] == a[p + 1] && a1[q] == a[q + 1]);
        }
        assert forall|p: int, q: int| 0 <= p < q < b1.len() implies lex_lt(b1[p], b1[q]) by {
            assert(b1[p] == b[p + 1] && b1[q] == b[q + 1]);
        }
        lemma_sorted_set_unique(a1, b1);
        assert(a =~= seq![a[0]] + a1);
        assert(b =~= seq![b[0]] + b1);
    }
}

/// The shared names of `fs`, each once, in string order.
pub open spec fn dup_list(fs: Seq<IrFunctionV>) -> Seq<Seq<char>> {
    choose|s: Seq<Seq<char>>| sorted_strict(s) && s.to_set() == duplicated(fs)
}

proof fn lemma_dup_list(fs: Seq<IrFunctionV>, s: Seq<Seq<char>>)
    requires
        sorted_strict(s),
        s.to_set() == duplicated(fs),
    ensures
        dup_list(fs) == s,
{
    let d = dup_list(fs);
    assert(sorted_strict(d) && d.to_set() == duplicated(fs));
    assert forall|x: Seq<char>| d.contains(x) <==> s.contains(x) by {
        assert(d.to_set().contains(x) == d.contains(x));
        assert(s.to_set().contains(x) == s.contains(x));
    }
    lemma_sorted_set_unique(d, s);
}

/// A function keyed by its Go export name, for finding collisions.
pub open spec fn keyed(f: IrFunctionV) -> IrFunctionV {
    IrFunctionV {
        name: facade_export(f),
        kind: f.kind,
        cpp_name: f.cpp_name,
        method_of: f.method_of,
        owner_cpp_type: f.owner_cpp_type,
        is_const: f.is_const,
        field_accessor: f.field_accessor,
        returns: f.returns,
        params: f.params,
    }
}

pub open spec fn keyed_all(fs: Seq<IrFunctionV>) -> Seq<IrFunctionV> {
    fs.map_values(|f: IrFunctionV| keyed(f))
}

/// Every collision, one entry per shared export name in string order, each naming the C++
/// declarations that share it.
pub open spec fn export_collisions(fs: Seq<IrFunctionV>, pre: Seq<char>, post: Seq<char>) -> Seq<char> {
    "facade export collision detected: "@ + join(
        dup_list(keyed_all(fs)).map_values(|n: Seq<char>| keyed_entry(keyed_all(fs), n, pre, post)),
        "; "@,
    )
}

pub open spec fn exports_check(fs: Seq<IrFunctionV>, pre: Seq<char>, post: Seq<char>) -> Result<
    (),
    Seq<char>,
> {
    if symbols_distinct(keyed_all(fs)) {
        Ok(())
    } else {
        Err(export_collisions(fs, pre, post))
    }
}

pub open spec fn unit_result(r: Result<(), String>) -> Result<(), Seq<char>> {
    match r {
        Ok(()) => Ok(()),
        Err(e) => Err(e@),
    }
}

pub open spec fn all_receivers_ok(fs: Seq<IrFunctionV>) -> bool {
    forall|i: int| 0 <= i < fs.len() ==> #[trigger] receiver_bound_ok(fs[i])
}

fn keyed_functions(functions: &Vec<IrFunction>) -> (r: Vec<IrFunction>)
    requires
        all_receivers_ok(functions_view(functions@)),
    ensures
        functions_view(r@) == keyed_all(functions_view(functions@)),
{
    let ghost fs = functions_view(functions@);
    let mut out: Vec<IrFunction> = Vec::new();
    let mut i: usize = 0;
    while i < functions.len()
        invariant
            i <= functions.len(),
            fs == functions_view(functions@),
            all_receivers_ok(fs),
            functions_view(out@) =~= keyed_all(fs).take(i as int),
        decreases functions.len() - i,
    {
        assert(receiver_bound_ok(fs[i as int]));
        let mut g = functions[i].copy();
        g.name = crate::gotypes::go_facade_export_name(&functions[i]);
        let ghost before = out@;
        out.push(g);
        assert(functions_view(out@) =~= functions_view(before).push(keyed(fs[i as int])));
        i = i + 1;
    }
    assert(keyed_all(fs).take(i as int) =~= keyed_all(fs));
    out
}

fn check_exports(functions: &Vec<IrFunction>, pre: &String) -> (r: Result<(), String>)
    requires
        all_receivers_ok(functions_view(functions@)),
    ensures
        unit_result(r) == exports_check(functions_view(functions@), pre@, "` collides for: "@),
{
    let ghost fs = functions_view(functions@);
    let keyed_fs = keyed_functions(functions);
    let syms = duplicated_names(&keyed_fs);
    if syms.len() == 0 {
        return Ok(());
    }
    let entries = collision_entries(&keyed_fs, &syms, pre.as_str(), "` collides for: ");
    let mut msg = String::from_str("facade export collision detected: ");
    let body = crate::text::join_strings(&entries, "; ");
    push_string(&mut msg, &body);
    proof {
        lemma_dup_list(keyed_all(fs), vviews(syms@));
    }
    Err(msg)
}

/// Fails when two free functions get the same Go name, listing each shared name.
pub fn ensure_unique_go_exports(functions: &Vec<IrFunction>) -> (r: Result<(), String>)
    requires
        all_receivers_ok(functions_view(functions@)),
    ensures
        unit_result(r) == exports_check(
            functions_view(functions@),
            "Go facade export `"@,
            "` collides for: "@,
        ),
{
    let pre = String::from_str("Go facade export `");
    check_exports(functions, &pre)
}

pub open spec fn method_prefix(owner: Seq<char>) -> Seq<char> {
    "Go facade method `"@ + owner + "."@
}

/// Fails when two methods of `owner` get the same Go name, listing each shared name.
pub fn ensure_unique_method_exports(owner: &str, methods: &Vec<IrFunction>) -> (r: Result<(), String>)
    requires
        all_receivers_ok(functions_view(methods@)),
    ensures
        unit_result(r) == exports_check(functions_view(methods@), method_prefix(owner@), "` collides for: "@),
{
    let mut pre = String::from_str("Go facade method `");
    push_str(&mut pre, owner);
    push_str(&mut pre, ".");
    check_exports(methods, &pre)
}

// ---------------------------------------------------------------------------
// Wrapped classes
// ---------------------------------------------------------------------------

/// A C++ class the facade wraps in a Go struct: it has a destructor and supported methods.
pub struct FacadeClass {
    pub go_name: String,
    pub handle_name: String,
    pub constructors: Vec<IrFunction>,
    pub destructor: IrFunction,
    pub methods: Vec<IrFunction>,
}

pub struct FacadeClassV {
    pub go_name: Seq<char>,
    pub handle_name: Seq<char>,
    pub constructors: Seq<IrFunctionV>,
    pub destructor: IrFunctionV,
    pub methods: Seq<IrFunctionV>,
}

impl View for FacadeClass {
    type V = FacadeClassV;

    open spec fn view(&self) -> FacadeClassV {
        FacadeClassV {
            go_name: self.go_name@,
            handle_name: self.handle_name@,
            constructors: functions_view(self.constructors@),
            destructor: self.destructor@,
            methods: functions_view(self.methods@),
        }
    }
}

pub open spec fn classes_view(v: Seq<FacadeClass>) -> Seq<FacadeClassV> {
    v.map_values(|c: FacadeClass| c@)
}

/// A constructor that takes one model of its own class.
pub open spec fn copy_constructor(f: IrFunctionV) -> bool {
    &&& f.kind == IrFunctionKind::Constructor
    &&& f.params.len() == 1
    &&& f.owner_cpp_type is Some
    &&& is_model_kind(f.params[0].ty.kind)
    &&& crate::types::base_model(f.params[0].ty.cpp_type) == crate::types::base_model(
        f.owner_cpp_type->0,
    )
}

pub fn is_copy_constructor(constructor: &IrFunction) -> (b: bool)
    ensures
        b == copy_constructor(constructor@),
{
    if constructor.kind != IrFunctionKind::Constructor || constructor.params.len() != 1 {
        return false;
    }
    let owner = match &constructor.owner_cpp_type {
        Some(o) => o,
        None => return false,
    };
    let t = &constructor.params[0].ty;
    assert(constructor@.params[0] == constructor.params@[0]@);
    if !is_model_wrapper_return(t) {
        return false;
    }
    let a = crate::types::base_model_cpp_type(t.cpp_type.as_str());
    let b = crate::types::base_model_cpp_type(owner.as_str());
    crate::text::str_eq(a.as_str(), b.as_str())
}

/// The parameters' names, each sanitized and exported, run together.
pub open spec fn param_names_token(ps: Seq<crate::ir::IrParamV>) -> Seq<char>
    decreases ps.len(),
{
    if ps.len() == 0 {
        seq![]
    } else {
        param_names_token(ps.drop_last()) + go_export(crate::case::go_token(ps.last().name))
    }
}

/// `New<Go name>`; with several constructors, a copy constructor adds `FromCopy` and one
/// with parameters `With` and its parameter names.
pub open spec fn ctor_base_name(go_name: Seq<char>, count: nat, f: IrFunctionV) -> Seq<char> {
    let base = "New"@ + go_name;
    if count <= 1 || f.params.len() == 0 {
        base
    } else if copy_constructor(f) {
        base + "FromCopy"@
    } else if param_names_token(f.params).len() == 0 {
        base
    } else {
        base + "With"@ + param_names_token(f.params)
    }
}

pub fn go_constructor_base_export_name(class: &FacadeClass, constructor: &IrFunction) -> (r: String)
    ensures
        r@ == ctor_base_name(class@.go_name, class@.constructors.len(), constructor@),
{
    let mut base = String::from_str("New");
    push_string(&mut base, &class.go_name);
    if class.constructors.len() <= 1 || constructor.params.len() == 0 {
        return base;
    }
    if is_copy_constructor(constructor) {
        push_str(&mut base, "FromCopy");
        return base;
    }
    let ghost ps = crate::ir::params_view(constructor.params@);
    let mut names = String::new();
    let mut i: usize = 0;
    while i < constructor.params.len()
        invariant
            i <= constructor.params.len(),
            ps == crate::ir::params_view(constructor.params@),
            names@ == param_names_token(ps.take(i as int)),
        decreases constructor.params.len() - i,
    {
        assert(ps.take(i + 1).drop_last() =~= ps.take(i as int));
        let t = crate::case::sanitize_go_token(constructor.params[i].name.as_str());
        let e = go_export_name(t.as_str());
        push_string(&mut names, &e);
        i = i + 1;
    }
    assert(ps.take(i as int) =~= ps);
    if names.as_str().unicode_len() == 0 {
        base
    } else {
        push_str(&mut base, "With");
        push_string(&mut base, &names);
        base
    }
}

/// The constructor's parameters' overload tokens, run together.
pub fn go_constructor_overload_suffix(constructor: &IrFunction) -> (r: String)
    ensures
        r@ == crate::gotypes::tokens_of(constructor@.params),
{
    let ghost ps = constructor@.params;
    let mut s = String::new();
    let mut i: usize = 0;
    while i < constructor.params.len()
        invariant
            i <= constructor.params.len(),
            ps == constructor@.params,
            s@ == crate::gotypes::tokens_of(ps.take(i as int)),
        decreases constructor.params.len() - i,
    {
        assert(ps.take(i + 1).drop_last() =~= ps.take(i as int));
        let t = crate::gotypes::go_overload_token(&constructor.params[i].ty);
        push_string(&mut s, &t);
        i = i + 1;
    }
    assert(ps.take(i as int) =~= ps);
    s
}

pub open spec fn count_of(s: Seq<Seq<char>>, x: Seq<char>) -> nat
    decreases s.len(),
{
    if s.len() == 0 {
        0
    } else {
        count_of(s.drop_last(), x) + if s.last() == x {
            1nat
        } else {
            0nat
        }
    }
}

/// The base names of a class's constructors.
pub open spec fn ctor_bases(c: FacadeClassV) -> Seq<Seq<char>> {
    c.constructors.map_values(|f: IrFunctionV| ctor_base_name(c.go_name, c.constructors.len(), f))
}

/// A shared base name takes the constructor's overload tokens.
pub open spec fn ctor_pre_names(c: FacadeClassV) -> Seq<Seq<char>> {
    Seq::new(
        c.constructors.len(),
        |k: int|
            {
                let b = ctor_bases(c)[k];
                let sfx = crate::gotypes::tokens_of(c.constructors[k].params);
                if count_of(ctor_bases(c), b) > 1 && sfx.len() > 0 {
                    b + sfx
                } else {
                    b
                }
            },
    )
}

/// The Go names of a class's constructors: a name already given before gets its number of
/// occurrences appended.
pub open spec fn ctor_names(c: FacadeClassV) -> Seq<Seq<char>> {
    Seq::new(
        c.constructors.len(),
        |k: int|
            {
                let p = ctor_pre_names(c);
                let n = count_of(p.take(k + 1), p[k]);
                if n > 1 {
                    p[k] + crate::text::decimal(n)
                } else {
                    p[k]
                }
            },
    )
}

fn count_in(v: &Vec<String>, x: &String, upto: usize) -> (r: usize)
    requires
        upto <= v.len(),
    ensures
        r == count_of(strs(v@).take(upto as int), x@),
        r <= upto,
{
    let ghost sv = strs(v@);
    let mut c: usize = 0;
    let mut j: usize = 0;
    while j < upto
        invariant
            j <= upto <= v.len(),
            sv == strs(v@),
            c == count_of(sv.take(j as int), x@),
            c <= j,
        decreases upto - j,
    {
        assert(sv.take(j + 1).drop_last() =~= sv.take(j as int));
        assert(sv[j as int] == v@[j as int]@);
        if crate::text::str_eq(v[j].as_str(), x.as_str()) {
            c = c + 1;
        }
        j = j + 1;
    }
    c
}

pub fn go_constructor_export_names(class: &FacadeClass) -> (r: Vec<String>)
    ensures
        strs(r@) == ctor_names(class@),
{
    let ghost cv = class@;
    let n = class.constructors.len();
    let mut bases: Vec<String> = Vec::new();
    let mut i: usize = 0;
    while i < n
        invariant
            i <= n == class.constructors.len(),
            cv == class@,
            strs(bases@) =~= ctor_bases(cv).take(i as int),
        decreases n - i,
    {
        let b = go_constructor_base_export_name(class, &class.constructors[i]);
        let ghost before = bases@;
        bases.push(b);
        assert(strs(bases@) =~= strs(before).push(b@));
        i = i + 1;
    }
    assert(strs(bases@) =~= ctor_bases(cv));
    let mut pres: Vec<String> = Vec::new();
    let mut i: usize = 0;
    while i < n
        invariant
            i <= n == class.constructors.len() == bases.len(),
            cv == class@,
            strs(bases@) == ctor_bases(cv),
            strs(pres@) =~= ctor_pre_names(cv).take(i as int),
        decreases n - i,
    {
        let c = count_in(&bases, &bases[i], n);
        assert(strs(bases@).take(n as int) =~= strs(bases@));
        let mut name = bases[i].clone();
        if c > 1 {
            let sfx = go_constructor_overload_suffix(&class.constructors[i]);
            if sfx.as_str().unicode_len() > 0 {
                push_string(&mut name, &sfx);
            }
        }
        let ghost before = pres@;
        pres.push(name);
        assert(strs(pres@) =~= strs(before).push(name@));
        i = i + 1;
    }
    let mut out: Vec<String> = Vec::new();
    let mut i: usize = 0;
    while i < n
        invariant
            i <= n == class.constructors.len() == pres.len(),
            cv == class@,
            strs(pres@) =~= ctor_pre_names(cv),
            strs(out@) =~= ctor_names(cv).take(i as int),
        decreases n - i,
    {
        let c = count_in(&pres, &pres[i], i + 1);
        let mut name = pres[i].clone();
        if c > 1 {
            let d = crate::text::decimal_vec(c);
            crate::text::push_chars(&mut name, d.as_slice());
        }
        let ghost before = out@;
        out.push(name);
        assert(strs(out@) =~= strs(before).push(name@));
        i = i + 1;
    }
    out
}

/// A method the facade can wrap: it names its class and its signature is supported.
pub open spec fn method_candidate(ctx: PipelineContextV, f: IrFunctionV) -> bool {
    &&& f.kind == IrFunctionKind::Method
    &&& f.owner_cpp_type is Some
    &&& crate::gotypes::go_return_ok(f.returns)
    &&& crate::gotypes::params_supported(ctx, f.params, 1)
}

pub open spec fn candidate_owner(ctx: PipelineContextV, fs: Seq<IrFunctionV>, o: Seq<char>) -> bool {
    exists|i: int| 0 <= i < fs.len() && #[trigger] method_candidate(ctx, fs[i]) && fs[i].owner_cpp_type == Some(o)
}

/// The supported methods of `o`, in order.
pub open spec fn methods_of(ctx: PipelineContextV, fs: Seq<IrFunctionV>, o: Seq<char>) -> Seq<IrFunctionV>
    decreases fs.len(),
{
    if fs.len() == 0 {
        seq![]
    } else if method_candidate(ctx, fs.last()) && fs.last().owner_cpp_type == Some(o) {
        methods_of(ctx, fs.drop_last(), o).push(fs.last())
    } else {
        methods_of(ctx, fs.drop_last(), o)
    }
}

pub open spec fn constructor_of(ctx: PipelineContextV, f: IrFunctionV, o: Seq<char>) -> bool {
    &&& f.kind == IrFunctionKind::Constructor
    &&& f.owner_cpp_type == Some(o)
    &&& crate::gotypes::params_supported(ctx, f.params, 0)
}

/// The constructors of `o` whose parameters are all supported, in order.
pub open spec fn constructors_of(ctx: PipelineContextV, fs: Seq<IrFunctionV>, o: Seq<char>) -> Seq<
    IrFunctionV,
>
    decreases fs.len(),
{
    if fs.len() == 0 {
        seq![]
    } else if constructor_of(ctx, fs.last(), o) {
        constructors_of(ctx, fs.drop_last(), o).push(fs.last())
    } else {
        constructors_of(ctx, fs.drop_last(), o)
    }
}

/// The last destructor of `o`.
pub open spec fn destructor_of(fs: Seq<IrFunctionV>, o: Seq<char>) -> Option<IrFunctionV>
    decreases fs.len(),
{
    if fs.len() == 0 {
        None
    } else if fs.last().kind == IrFunctionKind::Destructor && fs.last().owner_cpp_type == Some(o) {
        Some(fs.last())
    } else {
        destructor_of(fs.drop_last(), o)
    }
}

/// The handle of a class: the first constructor's, else the destructor's receiver's, else
/// the flattened class name with `Handle`.
pub open spec fn class_handle(o: Seq<char>, ctors: Seq<IrFunctionV>, d: IrFunctionV) -> Seq<char> {
    if ctors.len() > 0 && ctors[0].returns.handle is Some {
        ctors[0].returns.handle->0
    } else if d.params.len() > 0 && d.params[0].ty.handle is Some {
        d.params[0].ty.handle->0
    } else {
        crate::text::remove_all(o, "::"@) + "Handle"@
    }
}

pub open spec fn class_go_name(o: Seq<char>, h: Seq<char>) -> Seq<char> {
    match crate::text::strip_suffix(h, "Handle"@) {
        Some(b) => go_export(b),
        None => go_export(leaf(o)),
    }
}

pub open spec fn class_of(ctx: PipelineContextV, fs: Seq<IrFunctionV>, o: Seq<char>) -> Option<
    FacadeClassV,
> {
    match destructor_of(fs, o) {
        None => None,
        Some(d) => {
            let ctors = constructors_of(ctx, fs, o);
            let h = class_handle(o, ctors, d);
            Some(
                FacadeClassV {
                    go_name: class_go_name(o, h),
                    handle_name: h,
                    constructors: ctors,
                    destructor: d,
                    methods: methods_of(ctx, fs, o),
                },
            )
        },
    }
}

/// Owner by owner: a method-name collision fails; an owner without destructor is skipped.
pub open spec fn classes_from(ctx: PipelineContextV, fs: Seq<IrFunctionV>, owners: Seq<Seq<char>>) -> Result<
    Seq<FacadeClassV>,
    Seq<char>,
>
    decreases owners.len(),
{
    if owners.len() == 0 {
        Ok(seq![])
    } else {
        let o = owners[0];
        match exports_check(methods_of(ctx, fs, o), method_prefix(o), "` collides for: "@) {
            Err(e) => Err(e),
            Ok(_) => match classes_from(ctx, fs, owners.drop_first()) {
                Err(e) => Err(e),
                Ok(cs) => match class_of(ctx, fs, o) {
                    Some(c) => Ok(seq![c] + cs),
                    None => Ok(cs),
                },
            },
        }
    }
}

pub open spec fn classes_result(r: Result<Vec<FacadeClass>, String>) -> Result<Seq<FacadeClassV>, Seq<char>> {
    match r {
        Ok(v) => Ok(classes_view(v@)),
        Err(e) => Err(e@),
    }
}

/// `owners` lists the classes that have wrappable methods, each once, in string order.
pub open spec fn class_owner_order(ctx: PipelineContextV, fs: Seq<IrFunctionV>, owners: Seq<Seq<char>>) -> bool {
    &&& sorted_strict(owners)
    &&& forall|o: Seq<char>| #[trigger] owners.contains(o) <==> candidate_owner(ctx, fs, o)
}

/// The classes with wrappable methods, each once, in string order.
pub open spec fn class_owner_list(ctx: PipelineContextV, fs: Seq<IrFunctionV>) -> Seq<Seq<char>> {
    choose|owners: Seq<Seq<char>>| class_owner_order(ctx, fs, owners)
}

proof fn lemma_class_owner_list(ctx: PipelineContextV, fs: Seq<IrFunctionV>, owners: Seq<Seq<char>>)
    requires
        class_owner_order(ctx, fs, owners),
    ensures
        class_owner_list(ctx, fs) == owners,
{
    let c = class_owner_list(ctx, fs);
    assert(class_owner_order(ctx, fs, c));
    assert forall|x: Seq<char>| c.contains(x) <==> owners.contains(x) by {}
    lemma_sorted_set_unique(c, owners);
}

pub open spec fn candidates_receivers_ok(ctx: PipelineContextV, fs: Seq<IrFunctionV>) -> bool {
    forall|i: int| 0 <= i < fs.len() && #[trigger] method_candidate(ctx, fs[i]) ==> receiver_bound_ok(fs[i])
}

fn select_methods(ctx: &PipelineContext, functions: &Vec<IrFunction>, owner: &String) -> (r: Vec<IrFunction>)
    requires
        candidates_receivers_ok(ctx@, functions_view(functions@)),
    ensures
        functions_view(r@) == methods_of(ctx@, functions_view(functions@), owner@),
        all_receivers_ok(functions_view(r@)),
{
    let ghost fs = functions_view(functions@);
    let mut out: Vec<IrFunction> = Vec::new();
    let mut j: usize = 0;
    while j < functions.len()
        invariant
            j <= functions.len(),
            fs == functions_view(functions@),
            candidates_receivers_ok(ctx@, fs),
            functions_view(out@) == methods_of(ctx@, fs.take(j as int), owner@),
            all_receivers_ok(functions_view(out@)),
        decreases functions.len() - j,
    {
        assert(fs.take(j + 1).drop_last() =~= fs.take(j as int));
        assert(fs.take(j + 1).last() == fs[j as int]);
        let f = &functions[j];
        let is_candidate = f.kind == IrFunctionKind::Method && match &f.owner_cpp_type {
            Some(o) => crate::text::str_eq(o.as_str(), owner.as_str()),
            None => false,
        } && crate::gotypes::method_supported(ctx, f);
        if is_candidate {
            let ghost before = out@;
            out.push(f.copy());
            assert(functions_view(out@) =~= functions_view(before).push(fs[j as int]));
            assert(method_candidate(ctx@, fs[j as int]));
        }
        j = j + 1;
    }
    assert(fs.take(j as int) =~= fs);
    out
}

fn select_constructors(ctx: &PipelineContext, functions: &Vec<IrFunction>, owner: &String) -> (r: Vec<
    IrFunction,
>)
    ensures
        functions_view(r@) == constructors_of(ctx@, functions_view(functions@), owner@),
{
    let ghost fs = functions_view(functions@);
    let mut out: Vec<IrFunction> = Vec::new();
    let mut j: usize = 0;
    while j < functions.len()
        invariant
            j <= functions.len(),
            fs == functions_view(functions@),
            functions_view(out@) == constructors_of(ctx@, fs.take(j as int), owner@),
        decreases functions.len() - j,
    {
        assert(fs.take(j + 1).drop_last() =~= fs.take(j as int));
        assert(fs.take(j + 1).last() == fs[j as int]);
        let f = &functions[j];
        let wanted = f.kind == IrFunctionKind::Constructor && match &f.owner_cpp_type {
            Some(o) => crate::text::str_eq(o.as_str(), owner.as_str()),
            None => false,
        } && crate::gotypes::free_params_supported(ctx, f);
        if wanted {
            let ghost before = out@;
            out.push(f.copy());
            assert(functions_view(out@) =~= functions_view(before).push(fs[j as int]));
        }
        j = j + 1;
    }
    assert(fs.take(j as int) =~= fs);
    out
}

pub(crate) fn find_destructor(functions: &Vec<IrFunction>, owner: &String) -> (r: Option<IrFunction>)
    ensures
        match destructor_of(functions_view(functions@), owner@) {
            Some(d) => r is Some && r->0@ == d,
            None => r is None,
        },
{
    let ghost fs = functions_view(functions@);
    let mut j: usize = functions.len();
    assert(fs.take(functions.len() as int) =~= fs);
    while j > 0
        invariant
            j <= functions.len(),
            fs == functions_view(functions@),
            destructor_of(fs, owner@) == destructor_of(fs.take(j as int), owner@),
        decreases j,
    {
        let f = &functions[j - 1];
        assert(fs.take(j as int).last() == fs[j - 1]);
        assert(fs.take(j as int).drop_last() =~= fs.take(j - 1));
        let hit = f.kind == IrFunctionKind::Destructor && match &f.owner_cpp_type {
            Some(o) => crate::text::str_eq(o.as_str(), owner.as_str()),
            None => false,
        };
        if hit {
            return Some(f.copy());
        }
        j = j - 1;
    }
    None
}

fn class_handle_name(owner: &String, ctors: &Vec<IrFunction>, d: &IrFunction) -> (r: String)
    ensures
        r@ == class_handle(owner@, functions_view(ctors@), d@),
{
    if ctors.len() > 0 {
        assert(functions_view(ctors@)[0] == ctors@[0]@);
        match &ctors[0].returns.handle {
            Some(h) => return h.clone(),
            None => {},
        }
    }
    if d.params.len() > 0 {
        assert(d@.params[0] == d.params@[0]@);
        match &d.params[0].ty.handle {
            Some(h) => return h.clone(),
            None => {},
        }
    }
    let flat = crate::naming::flatten_qualified_cpp_name(owner.as_str());
    let mut out = flat;
    push_str(&mut out, "Handle");
    out
}

fn class_go_name_of(owner: &String, handle: &String) -> (r: String)
    ensures
        r@ == class_go_name(owner@, handle@),
{
    let hv = crate::text::chars_of(handle.as_str());
    match crate::text::strip_suffix_lit(hv.as_slice(), "Handle") {
        Some(b) => go_export_name(crate::text::string_of(b.as_slice()).as_str()),
        None => {
            let l = leaf_cpp_name(owner.as_str());
            go_export_name(l.as_str())
        },
    }
}

/// The classes the facade wraps, in the string order of their C++ names; fails when two
/// methods of one class get the same Go name.
pub fn collect_facade_classes(ctx: &PipelineContext, ir: &crate::ir::IrModule) -> (r: Result<
    Vec<FacadeClass>,
    String,
>)
    requires
        candidates_receivers_ok(ctx@, functions_view(ir.functions@)),
    ensures
        classes_result(r) == classes_from(ctx@, functions_view(ir.functions@), class_owner_list(ctx@, functions_view(ir.functions@))),
        class_owner_order(ctx@, functions_view(ir.functions@), class_owner_list(ctx@, functions_view(ir.functions@))),
{
    let functions = &ir.functions;
    let ghost fs = functions_view(functions@);
    let mut found: Vec<String> = Vec::new();
    let mut j: usize = 0;
    while j < functions.len()
        invariant
            j <= functions.len(),
            fs == functions_view(functions@),
            forall|o: Seq<char>| #[trigger] strs(found@).contains(o) <==> (exists|i: int| 0 <= i < j && #[trigger] method_candidate(ctx@, fs[i]) && fs[i].owner_cpp_type == Some(o)),
        decreases functions.len() - j,
    {
        let f = &functions[j];
        if f.kind == IrFunctionKind::Method && f.owner_cpp_type.is_some() && crate::gotypes::method_supported(ctx, f) {
            let o = match &f.owner_cpp_type {
                Some(o) => o.clone(),
                None => String::new(),
            };
            let ghost before = strs(found@);
            found.push(o);
            proof {
                let now = strs(found@);
                assert(now =~= before.push(o@));
                assert(method_candidate(ctx@, fs[j as int]));
                assert forall|x: Seq<char>| #[trigger] now.contains(x) <==> (exists|i: int| 0 <= i < j + 1 && #[trigger] method_candidate(ctx@, fs[i]) && fs[i].owner_cpp_type == Some(x)) by {
                    if now.contains(x) {
                        let t = choose|t: int| 0 <= t < now.len() && now[t] == x;
                        if t == before.len() {
                            assert(0 <= j < j + 1 && method_candidate(ctx@, fs[j as int]) && fs[j as int].owner_cpp_type == Some(x));
                        } else {
                            assert(before[t] == x);
                            assert(before.contains(x));
                        }
                    }
                    if exists|i: int| 0 <= i < j + 1 && #[trigger] method_candidate(ctx@, fs[i]) && fs[i].owner_cpp_type == Some(x) {
                        let i = choose|i: int| 0 <= i < j + 1 && #[trigger] method_candidate(ctx@, fs[i]) && fs[i].owner_cpp_type == Some(x);
                        if i == j {
                            assert(now[before.len() as int] == x);
                        } else {
                            assert(before.contains(x));
                            let t = choose|t: int| 0 <= t < before.len() && before[t] == x;
                            assert(now[t] == x);
                        }
                    }
                }
            }
        } else {
            proof {
                assert(!method_candidate(ctx@, fs[j as int]));
                assert forall|x: Seq<char>| #[trigger] strs(found@).contains(x) <==> (exists|i: int| 0 <= i < j + 1 && #[trigger] method_candidate(ctx@, fs[i]) && fs[i].owner_cpp_type == Some(x)) by {
                    if exists|i: int| 0 <= i < j + 1 && #[trigger] method_candidate(ctx@, fs[i]) && fs[i].owner_cpp_type == Some(x) {
                        let i = choose|i: int| 0 <= i < j + 1 && #[trigger] method_candidate(ctx@, fs[i]) && fs[i].owner_cpp_type == Some(x);
                        assert(i != j);
                    }
                }
            }
        }
        j = j + 1;
    }
    let owners = crate::pipeline::sorted_unique(&found);
    let ghost ov = strs(owners@);
    assert forall|o: Seq<char>| #[trigger] ov.contains(o) <==> candidate_owner(ctx@, fs, o) by {}
    assert(class_owner_order(ctx@, fs, ov));
    let mut classes: Vec<FacadeClass> = Vec::new();
    let mut k: usize = 0;
    assert(ov.skip(0) =~= ov);
    while k < owners.len()
        invariant
            k <= owners.len(),
            fs == functions_view(functions@),
            ov == strs(owners@),
            fs == functions_view(ir.functions@),
            class_owner_order(ctx@, fs, ov),
            candidates_receivers_ok(ctx@, fs),
            classes_from(ctx@, fs, ov) == match classes_from(ctx@, fs, ov.skip(k as int)) {
                Ok(cs) => Ok::<Seq<FacadeClassV>, Seq<char>>(classes_view(classes@) + cs),
                Err(e) => Err(e),
            },
        decreases owners.len() - k,
    {
        let owner = &owners[k];
        assert(ov[k as int] == owner@);
        let ghost rest = ov.skip(k as int);
        assert(rest[0] == owner@);
        assert(rest.drop_first() =~= ov.skip(k + 1));
        let methods = select_methods(ctx, functions, owner);
        match ensure_unique_method_exports(owner.as_str(), &methods) {
            Err(e) => {
                proof {
                    assert(rest.len() > 0);
                    assert(classes_from(ctx@, fs, rest) == Err::<Seq<FacadeClassV>, Seq<char>>(e@));
                    assert(classes_from(ctx@, fs, ov) == Err::<Seq<FacadeClassV>, Seq<char>>(e@));
                    lemma_class_owner_list(ctx@, fs, ov);
                }
                return Err(e);
            },
            Ok(()) => {},
        }
        let d = match find_destructor(functions, owner) {
            Some(d) => d,
            None => {
                k = k + 1;
                continue;
            },
        };
        let ctors = select_constructors(ctx, functions, owner);
        let handle_name = class_handle_name(owner, &ctors, &d);
        let go_name = class_go_name_of(owner, &handle_name);
        let c = FacadeClass { go_name, handle_name, constructors: ctors, destructor: d, methods };
        let ghost before = classes@;
        classes.push(c);
        proof {
            assert(classes_view(classes@) =~= classes_view(before).push(c@));
            match classes_from(ctx@, fs, ov.skip(k + 1)) {
                Ok(cs) => {
                    assert(classes_view(before) + (seq![c@] + cs) =~= classes_view(classes@) + cs);
                },
                Err(e) => {},
            }
        }
        k = k + 1;
    }
    assert(ov.skip(k as int) =~= Seq::<Seq<char>>::empty());
    assert(classes_view(classes@) + Seq::<FacadeClassV>::empty() =~= classes_view(classes@));
    proof {
        lemma_class_owner_list(ctx@, fs, ov);
    }
    Ok(classes)
}

// ---------------------------------------------------------------------------
// Callbacks
// ---------------------------------------------------------------------------

/// A callback parameter of a wrapped function: which callback type, which function, which
/// parameter.
pub struct CallbackUsage {
    pub callback: crate::ir::IrCallback,
    pub function: IrFunction,
    pub param_index: usize,
}

pub struct CallbackUsageV {
    pub callback: crate::ir::IrCallbackV,
    pub function: IrFunctionV,
    pub param_index: nat,
}

impl View for CallbackUsage {
    type V = CallbackUsageV;

    open spec fn view(&self) -> CallbackUsageV {
        CallbackUsageV {
            callback: self.callback@,
            function: self.function@,
            param_index: self.param_index as nat,
        }
    }
}

pub open spec fn usages_view(v: Seq<CallbackUsage>) -> Seq<CallbackUsageV> {
    v.map_values(|u: CallbackUsage| u@)
}

fn copy_callback(c: &crate::ir::IrCallback) -> (r: crate::ir::IrCallback)
    ensures
        r@ == c@,
{
    crate::ir::IrCallback {
        name: c.name.clone(),
        cpp_name: c.cpp_name.clone(),
        returns: c.returns.copy(),
        params: crate::ir::copy_params(&c.params),
    }
}

/// The Go type of a callback parameter or result: its IR Go type, else from its C type.
pub open spec fn callback_go(t: IrTypeV) -> Seq<char> {
    match go_type_ir(t) {
        Some(g) => g,
        None => crate::gotypes::go_from_c(crate::gotypes::type_key(t.c_type))->0,
    }
}

pub fn callback_go_type(ty: &IrType) -> (r: &'static str)
    ensures
        r@ == callback_go(ty@),
{
    match go_type_for_ir(ty) {
        Some(g) => g,
        None => crate::gotypes::go_type_from_c_type(ty.c_type.as_str()),
    }
}

pub open spec fn cgo_of_c(t: IrTypeV) -> Seq<char> {
    crate::gotypes::cgo_from_c(crate::gotypes::type_key(t.c_type))->0
}

/// The cgo type of a callback parameter: `*C.char` for strings, else from its C type.
pub open spec fn callback_cgo_param(t: IrTypeV) -> Seq<char> {
    if t.kind == IrTypeKind::String || t.kind == IrTypeKind::CString {
        "*C.char"@
    } else {
        cgo_of_c(t)
    }
}

pub fn callback_cgo_param_type(ty: &IrType) -> (r: &'static str)
    ensures
        r@ == callback_cgo_param(ty@),
{
    match ty.kind {
        IrTypeKind::String | IrTypeKind::CString => "*C.char",
        _ => crate::gotypes::cgo_cast_type_from_c_type(ty.c_type.as_str()),
    }
}

pub fn callback_cgo_return_type(ty: &IrType) -> (r: &'static str)
    ensures
        r@ == cgo_of_c(ty@),
{
    crate::gotypes::cgo_cast_type_from_c_type(ty.c_type.as_str())
}

/// A C argument handed to the Go callback: strings through `C.GoString`, else converted.
pub open spec fn callback_go_arg(t: IrTypeV, name: Seq<char>) -> Seq<char> {
    if t.kind == IrTypeKind::String || t.kind == IrTypeKind::CString {
        "C.GoString("@ + name + ")"@
    } else {
        callback_go(t) + "("@ + name + ")"@
    }
}

pub fn render_callback_go_arg(ty: &IrType, name: &str) -> (r: String)
    ensures
        r@ == callback_go_arg(ty@, name@),
{
    match ty.kind {
        IrTypeKind::String | IrTypeKind::CString => {
            let mut out = String::from_str("C.GoString(");
            push_str(&mut out, name);
            push_str(&mut out, ")");
            out
        },
        _ => {
            let mut out = String::from_str(callback_go_type(ty));
            push_str(&mut out, "(");
            push_str(&mut out, name);
            push_str(&mut out, ")");
            out
        },
    }
}

/// `<sanitized function name>_cb<index>`.
pub open spec fn state_name(f: IrFunctionV, index: nat) -> Seq<char> {
    crate::case::go_token(f.name) + "_cb"@ + crate::text::decimal(index)
}

pub fn callback_state_name_from_function(function: &IrFunction, index: usize) -> (r: String)
    ensures
        r@ == state_name(function@, index as nat),
{
    let mut out = crate::case::sanitize_go_token(function.name.as_str());
    push_str(&mut out, "_cb");
    let d = crate::text::decimal_vec(index);
    crate::text::push_chars(&mut out, d.as_slice());
    out
}

pub fn callback_state_name(usage: &CallbackUsage) -> (r: String)
    ensures
        r@ == state_name(usage@.function, usage@.param_index),
{
    callback_state_name_from_function(&usage.function, usage.param_index)
}

/// The exported cgo trampoline: `go_` before the state name.
pub fn callback_go_export_name(usage: &CallbackUsage) -> (r: String)
    ensures
        r@ == "go_"@ + state_name(usage@.function, usage@.param_index),
{
    let mut out = String::from_str("go_");
    let s = callback_state_name(usage);
    push_string(&mut out, &s);
    out
}

pub open spec fn typed_params(ps: Seq<crate::ir::IrParamV>, ty: spec_fn(IrTypeV) -> Seq<char>) -> Seq<
    Seq<char>,
> {
    ps.map_values(|p: crate::ir::IrParamV| p.name + " "@ + ty(p.ty))
}

/// `type <name> func(<params>) <result>` with Go types.
pub open spec fn callback_type_text(c: crate::ir::IrCallbackV) -> Seq<char> {
    "type "@ + c.name + " func("@ + join(typed_params(c.params, |t: IrTypeV| callback_go(t)), ", "@)
        + ")"@ + (if c.returns.kind == IrTypeKind::Void {
        seq![]
    } else {
        " "@ + callback_go(c.returns)
    }) + "\n"@
}

fn param_list_with(params: &Vec<crate::ir::IrParam>, cgo: bool) -> (r: String)
    ensures
        r@ == join(
            typed_params(
                crate::ir::params_view(params@),
                if cgo {
                    |t: IrTypeV| callback_cgo_param(t)
                } else {
                    |t: IrTypeV| callback_go(t)
                },
            ),
            ", "@,
        ),
{
    let ghost ty: spec_fn(IrTypeV) -> Seq<char> = if cgo {
        |t: IrTypeV| callback_cgo_param(t)
    } else {
        |t: IrTypeV| callback_go(t)
    };
    let ghost ps = crate::ir::params_view(params@);
    let mut parts: Vec<String> = Vec::new();
    let mut i: usize = 0;
    while i < params.len()
        invariant
            i <= params.len(),
            ps == crate::ir::params_view(params@),
            ty == (if cgo {
                |t: IrTypeV| callback_cgo_param(t)
            } else {
                |t: IrTypeV| callback_go(t)
            }),
            views(parts@) =~= typed_params(ps, ty).take(i as int),
        decreases params.len() - i,
    {
        let p = &params[i];
        let mut e = p.name.clone();
        push_str(&mut e, " ");
        if cgo {
            push_str(&mut e, callback_cgo_param_type(&p.ty));
        } else {
            push_str(&mut e, callback_go_type(&p.ty));
        }
        let ghost before = parts@;
        parts.push(e);
        assert(views(parts@) =~= views(before).push(e@));
        i = i + 1;
    }
    assert(typed_params(ps, ty).take(i as int) =~= typed_params(ps, ty));
    crate::text::join_strings(&parts, ", ")
}

pub fn render_callback_type(callback: &crate::ir::IrCallback) -> (r: String)
    ensures
        r@ == callback_type_text(callback@),
{
    let mut out = String::from_str("type ");
    push_string(&mut out, &callback.name);
    push_str(&mut out, " func(");
    let ps = param_list_with(&callback.params, false);
    push_string(&mut out, &ps);
    push_str(&mut out, ")");
    if callback.returns.kind != IrTypeKind::Void {
        push_str(&mut out, " ");
        push_str(&mut out, callback_go_type(&callback.returns));
    }
    push_str(&mut out, "\n");
    out
}

/// The guarded slot that holds the Go function registered for one callback parameter.
pub open spec fn registry_text(u: CallbackUsageV) -> Seq<char> {
    "var "@ + state_name(u.function, u.param_index) + " struct {\n    mu sync.RWMutex\n    fn "@
        + u.callback.name + "\n}\n"@
}

pub fn render_callback_registry(usage: &CallbackUsage) -> (r: String)
    ensures
        r@ == registry_text(usage@),
{
    let mut out = String::from_str("var ");
    let s = callback_state_name(usage);
    push_string(&mut out, &s);
    push_str(&mut out, " struct {\n    mu sync.RWMutex\n    fn ");
    push_string(&mut out, &usage.callback.name);
    push_str(&mut out, "\n}\n");
    out
}

pub open spec fn go_args(ps: Seq<crate::ir::IrParamV>) -> Seq<Seq<char>> {
    ps.map_values(|p: crate::ir::IrParamV| callback_go_arg(p.ty, p.name))
}

/// The cgo export called from C: it reads the registered function under the lock, returns
/// the zero value when none is registered, else calls it with converted arguments.
pub open spec fn export_text(u: CallbackUsageV) -> Seq<char> {
    let st = state_name(u.function, u.param_index);
    let ex = "go_"@ + st;
    let void = u.callback.returns.kind == IrTypeKind::Void;
    "//export "@ + ex + "\n"@ + "func "@ + ex + "("@ + join(
        typed_params(u.callback.params, |t: IrTypeV| callback_cgo_param(t)),
        ", "@,
    ) + ")"@ + (if void {
        seq![]
    } else {
        " "@ + cgo_of_c(u.callback.returns)
    }) + " {\n"@ + "    "@ + st + ".mu.RLock()\n    fn := "@ + st + ".fn\n    "@ + st
        + ".mu.RUnlock()\n    if fn == nil {\n"@ + (if void {
        "        return\n"@
    } else {
        "        return "@ + zero_value(
            match go_type_ir(u.callback.returns) {
                Some(g) => g,
                None => "int"@,
            },
        ) + "\n"@
    }) + "    }\n"@ + (if void {
        "    fn("@ + join(go_args(u.callback.params), ", "@) + ")\n"@
    } else {
        "    return "@ + cgo_of_c(u.callback.returns) + "(fn("@ + join(
            go_args(u.callback.params),
            ", "@,
        ) + "))\n"@
    }) + "}\n"@
}

fn callback_args(params: &Vec<crate::ir::IrParam>) -> (r: String)
    ensures
        r@ == join(go_args(crate::ir::params_view(params@)), ", "@),
{
    let ghost ps = crate::ir::params_view(params@);
    let mut parts: Vec<String> = Vec::new();
    let mut i: usize = 0;
    while i < params.len()
        invariant
            i <= params.len(),
            ps == crate::ir::params_view(params@),
            views(parts@) =~= go_args(ps).take(i as int),
        decreases params.len() - i,
    {
        let e = render_callback_go_arg(&params[i].ty, params[i].name.as_str());
        let ghost before = parts@;
        parts.push(e);
        assert(views(parts@) =~= views(before).push(e@));
        i = i + 1;
    }
    assert(go_args(ps).take(i as int) =~= go_args(ps));
    crate::text::join_strings(&parts, ", ")
}

pub fn render_callback_export(usage: &CallbackUsage) -> (r: String)
    ensures
        r@ == export_text(usage@),
{
    let st = callback_state_name(usage);
    let ex = callback_go_export_name(usage);
    let void = usage.callback.returns.kind == IrTypeKind::Void;
    let mut out = String::from_str("//export ");
    push_string(&mut out, &ex);
    push_str(&mut out, "\n");
    push_str(&mut out, "func ");
    push_string(&mut out, &ex);
    push_str(&mut out, "(");
    let ps = param_list_with(&usage.callback.params, true);
    push_string(&mut out, &ps);
    push_str(&mut out, ")");
    if !void {
        push_str(&mut out, " ");
        push_str(&mut out, callback_cgo_return_type(&usage.callback.returns));
    }
    push_str(&mut out, " {\n");
    push_str(&mut out, "    ");
    push_string(&mut out, &st);
    push_str(&mut out, ".mu.RLock()\n    fn := ");
    push_string(&mut out, &st);
    push_str(&mut out, ".fn\n    ");
    push_string(&mut out, &st);
    push_str(&mut out, ".mu.RUnlock()\n    if fn == nil {\n");
    if void {
        push_str(&mut out, "        return\n");
    } else {
        let g = match go_type_for_ir(&usage.callback.returns) {
            Some(g) => g,
            None => "int",
        };
        push_str(&mut out, "        return ");
        push_str(&mut out, zero_value_for_go_type(g));
        push_str(&mut out, "\n");
    }
    push_str(&mut out, "    }\n");
    let args = callback_args(&usage.callback.params);
    if void {
        push_str(&mut out, "    fn(");
        push_string(&mut out, &args);
        push_str(&mut out, ")\n");
    } else {
        push_str(&mut out, "    return ");
        push_str(&mut out, callback_cgo_return_type(&usage.callback.returns));
        push_str(&mut out, "(fn(");
        push_string(&mut out, &args);
        push_str(&mut out, "))\n");
    }
    push_str(&mut out, "}\n");
    out
}

/// The callback type named `n`; the last one wins where several share a name.
pub open spec fn callback_named(cbs: Seq<crate::ir::IrCallbackV>, n: Seq<char>) -> Option<
    crate::ir::IrCallbackV,
>
    decreases cbs.len(),
{
    if cbs.len() == 0 {
        None
    } else if cbs.last().name == n {
        Some(cbs.last())
    } else {
        callback_named(cbs.drop_last(), n)
    }
}

/// The callback parameters of `f` among its first `k`, in order, with their callback types.
pub open spec fn usages_in(f: IrFunctionV, cbs: Seq<crate::ir::IrCallbackV>, k: int) -> Seq<
    CallbackUsageV,
>
    decreases k,
{
    if k <= 0 || k > f.params.len() {
        seq![]
    } else {
        let p = f.params[k - 1];
        usages_in(f, cbs, k - 1) + if p.ty.kind == IrTypeKind::Callback {
            match callback_named(cbs, p.ty.cpp_type) {
                Some(c) => seq![CallbackUsageV { callback: c, function: f, param_index: (k - 1) as nat }],
                None => seq![],
            }
        } else {
            seq![]
        }
    }
}

pub open spec fn usages_of(f: IrFunctionV, cbs: Seq<crate::ir::IrCallbackV>) -> Seq<CallbackUsageV> {
    usages_in(f, cbs, f.params.len() as int)
}

pub open spec fn usages_of_all(fs: Seq<IrFunctionV>, cbs: Seq<crate::ir::IrCallbackV>) -> Seq<
    CallbackUsageV,
>
    decreases fs.len(),
{
    if fs.len() == 0 {
        seq![]
    } else {
        usages_of_all(fs.drop_last(), cbs) + usages_of(fs.last(), cbs)
    }
}

pub open spec fn class_methods_all(cs: Seq<FacadeClassV>) -> Seq<IrFunctionV>
    decreases cs.len(),
{
    if cs.len() == 0 {
        seq![]
    } else {
        class_methods_all(cs.drop_last()) + cs.last().methods
    }
}

pub open spec fn callbacks_view(v: Seq<crate::ir::IrCallback>) -> Seq<crate::ir::IrCallbackV> {
    v.map_values(|c: crate::ir::IrCallback| c@)
}

fn find_callback(cbs: &Vec<crate::ir::IrCallback>, n: &String) -> (r: Option<crate::ir::IrCallback>)
    ensures
        match callback_named(callbacks_view(cbs@), n@) {
            Some(c) => r is Some && r->0@ == c,
            None => r is None,
        },
{
    let ghost cv = callbacks_view(cbs@);
    let mut j: usize = cbs.len();
    assert(cv.take(cbs.len() as int) =~= cv);
    while j > 0
        invariant
            j <= cbs.len(),
            cv == callbacks_view(cbs@),
            callback_named(cv, n@) == callback_named(cv.take(j as int), n@),
        decreases j,
    {
        assert(cv.take(j as int).last() == cv[j - 1]);
        assert(cv.take(j as int).drop_last() =~= cv.take(j - 1));
        if crate::text::str_eq(cbs[j - 1].name.as_str(), n.as_str()) {
            return Some(copy_callback(&cbs[j - 1]));
        }
        j = j - 1;
    }
    None
}

fn push_usages(out: &mut Vec<CallbackUsage>, function: &IrFunction, cbs: &Vec<crate::ir::IrCallback>)
    ensures
        usages_view(final(out)@) == usages_view(old(out)@) + usages_of(function@, callbacks_view(cbs@)),
{
    let ghost start = usages_view(out@);
    let ghost cv = callbacks_view(cbs@);
    let ghost f = function@;
    let mut i: usize = 0;
    while i < function.params.len()
        invariant
            i <= function.params.len(),
            f == function@,
            cv == callbacks_view(cbs@),
            usages_view(out@) =~= start + usages_in(f, cv, i as int),
        decreases function.params.len() - i,
    {
        let p = &function.params[i];
        assert(f.params[i as int] == p@);
        if p.ty.kind == IrTypeKind::Callback {
            match find_callback(cbs, &p.ty.cpp_type) {
                Some(c) => {
                    let u = CallbackUsage { callback: c, function: function.copy(), param_index: i };
                    let ghost before = usages_view(out@);
                    out.push(u);
                    assert(usages_view(out@) =~= before.push(u@));
                },
                None => {},
            }
        }
        i = i + 1;
    }
}

/// Every callback parameter of the free functions, then of each class's methods.
pub fn collect_callback_usages(
    functions: &Vec<IrFunction>,
    classes: &Vec<FacadeClass>,
    ir: &crate::ir::IrModule,
) -> (r: Vec<CallbackUsage>)
    ensures
        usages_view(r@) == usages_of_all(
            functions_view(functions@) + class_methods_all(classes_view(classes@)),
            callbacks_view(ir.callbacks@),
        ),
{
    let ghost cv = callbacks_view(ir.callbacks@);
    let ghost all = functions_view(functions@) + class_methods_all(classes_view(classes@));
    let mut out: Vec<CallbackUsage> = Vec::new();
    let mut i: usize = 0;
    while i < functions.len()
        invariant
            i <= functions.len(),
            cv == callbacks_view(ir.callbacks@),
            usages_view(out@) == usages_of_all(functions_view(functions@).take(i as int), cv),
        decreases functions.len() - i,
    {
        assert(functions_view(functions@).take(i + 1).drop_last() =~= functions_view(functions@).take(i as int));
        push_usages(&mut out, &functions[i], &ir.callbacks);
        i = i + 1;
    }
    assert(functions_view(functions@).take(i as int) =~= functions_view(functions@));
    let ghost head = functions_view(functions@);
    let mut k: usize = 0;
    while k < classes.len()
        invariant
            k <= classes.len(),
            cv == callbacks_view(ir.callbacks@),
            head == functions_view(functions@),
            usages_view(out@) == usages_of_all(head + class_methods_all(classes_view(classes@).take(k as int)), cv),
        decreases classes.len() - k,
    {
        let ghost ck = classes_view(classes@).take(k as int);
        assert(classes_view(classes@).take(k + 1).drop_last() =~= ck);
        assert(classes_view(classes@).take(k + 1).last() == classes@[k as int]@);
        let methods = &classes[k].methods;
        let ghost ms = functions_view(methods@);
        let mut j: usize = 0;
        assert(head + class_methods_all(ck) + ms.take(0) =~= head + class_methods_all(ck));
        while j < methods.len()
            invariant
                j <= methods.len(),
                cv == callbacks_view(ir.callbacks@),
                ms == functions_view(methods@),
                usages_view(out@) == usages_of_all(head + class_methods_all(ck) + ms.take(j as int), cv),
            decreases methods.len() - j,
        {
            let ghost pre = head + class_methods_all(ck) + ms.take(j as int);
            assert((head + class_methods_all(ck) + ms.take(j + 1)).drop_last() =~= pre);
            assert((head + class_methods_all(ck) + ms.take(j + 1)).last() == methods@[j as int]@);
            push_usages(&mut out, &methods[j], &ir.callbacks);
            j = j + 1;
        }
        assert(ms.take(j as int) =~= ms);
        assert(head + class_methods_all(ck) + ms =~= head + class_methods_all(classes_view(classes@).take(k + 1)));
        k = k + 1;
    }
    assert(classes_view(classes@).take(k as int) =~= classes_view(classes@));
    out
}

/// The callback type of the first usage of a callback named `n`.
pub open spec fn first_callback(us: Seq<CallbackUsageV>, n: Seq<char>) -> Option<crate::ir::IrCallbackV>
    decreases us.len(),
{
    if us.len() == 0 {
        None
    } else {
        match first_callback(us.drop_last(), n) {
            Some(c) => Some(c),
            None => if us.last().callback.name == n {
                Some(us.last().callback)
            } else {
                None
            },
        }
    }
}

pub open spec fn used_name(us: Seq<CallbackUsageV>, x: Seq<char>) -> bool {
    exists|i: int| 0 <= i < us.len() && #[trigger] us[i].callback.name == x
}

/// `names` lists the used callback names, each once, in string order.
pub open spec fn callback_name_order(us: Seq<CallbackUsageV>, names: Seq<Seq<char>>) -> bool {
    &&& sorted_strict(names)
    &&& forall|x: Seq<char>| #[trigger] names.contains(x) <==> used_name(us, x)
}

fn first_callback_of(usages: &Vec<CallbackUsage>, n: &String) -> (r: Option<crate::ir::IrCallback>)
    ensures
        match first_callback(usages_view(usages@), n@) {
            Some(c) => r is Some && r->0@ == c,
            None => r is None,
        },
{
    let ghost us = usages_view(usages@);
    let mut j: usize = 0;
    while j < usages.len()
        invariant
            j <= usages.len(),
            us == usages_view(usages@),
            first_callback(us.take(j as int), n@) is None,
        decreases usages.len() - j,
    {
        assert(us.take(j + 1).drop_last() =~= us.take(j as int));
        assert(us.take(j + 1).last() == usages@[j as int]@);
        if crate::text::str_eq(usages[j].callback.name.as_str(), n.as_str()) {
            proof {
                lemma_first_callback_prefix(us, j as int + 1, n@);
            }
            return Some(copy_callback(&usages[j].callback));
        }
        j = j + 1;
    }
    assert(us.take(j as int) =~= us);
    None
}

proof fn lemma_first_callback_prefix(us: Seq<CallbackUsageV>, k: int, n: Seq<char>)
    requires
        0 <= k <= us.len(),
        first_callback(us.take(k), n) is Some,
    ensures
        first_callback(us, n) == first_callback(us.take(k), n),
    decreases us.len() - k,
{
    if k < us.len() {
        assert(us.take(k + 1).drop_last() =~= us.take(k));
        lemma_first_callback_prefix(us, k + 1, n);
    } else {
        assert(us.take(k) =~= us);
    }
}

proof fn lemma_used_name_first(us: Seq<CallbackUsageV>, x: Seq<char>)
    requires
        used_name(us, x),
    ensures
        first_callback(us, x) is Some,
    decreases us.len(),
{
    let i = choose|i: int| 0 <= i < us.len() && #[trigger] us[i].callback.name == x;
    if i < us.len() - 1 {
        assert(us.drop_last()[i].callback.name == x);
        lemma_used_name_first(us.drop_last(), x);
    }
}

/// The used callback names, each once, in string order.
pub open spec fn callback_name_list(us: Seq<CallbackUsageV>) -> Seq<Seq<char>> {
    choose|names: Seq<Seq<char>>| callback_name_order(us, names)
}

/// Each used callback type once, in name order, as its first usage declares it.
pub open spec fn used_callback_list(us: Seq<CallbackUsageV>) -> Seq<crate::ir::IrCallbackV> {
    callback_name_list(us).map_values(|n: Seq<char>| first_callback(us, n)->0)
}

proof fn lemma_callback_name_list(us: Seq<CallbackUsageV>, names: Seq<Seq<char>>)
    requires
        callback_name_order(us, names),
    ensures
        callback_name_list(us) == names,
{
    let c = callback_name_list(us);
    assert(callback_name_order(us, c));
    assert forall|x: Seq<char>| c.contains(x) <==> names.contains(x) by {}
    lemma_sorted_set_unique(c, names);
}

/// Each callback type used, once, in the string order of its name; where two usages name
/// the same type, the first one's declaration is kept.
pub fn used_callbacks(usages: &Vec<CallbackUsage>) -> (r: Vec<crate::ir::IrCallback>)
    ensures
        callbacks_view(r@) == used_callback_list(usages_view(usages@)),
{
    let ghost us = usages_view(usages@);
    let mut found: Vec<String> = Vec::new();
    let mut i: usize = 0;
    while i < usages.len()
        invariant
            i <= usages.len(),
            us == usages_view(usages@),
            strs(found@) =~= us.take(i as int).map_values(|u: CallbackUsageV| u.callback.name),
        decreases usages.len() - i,
    {
        let ghost before = strs(found@);
        found.push(usages[i].callback.name.clone());
        assert(strs(found@) =~= before.push(usages@[i as int]@.callback.name));
        i = i + 1;
    }
    assert(us.take(i as int) =~= us);
    let names = crate::pipeline::sorted_unique(&found);
    let ghost nv = strs(names@);
    proof {
        assert forall|x: Seq<char>| #[trigger] nv.contains(x) <==> used_name(us, x) by {
            let m = us.map_values(|u: CallbackUsageV| u.callback.name);
            if nv.contains(x) {
                assert(m.contains(x));
                let t = choose|t: int| 0 <= t < m.len() && m[t] == x;
                assert(us[t].callback.name == x);
            }
            if used_name(us, x) {
                let t = choose|t: int| 0 <= t < us.len() && #[trigger] us[t].callback.name == x;
                assert(m[t] == x);
                assert(m.contains(x));
            }
        }
        assert(callback_name_order(us, nv));
    }
    let mut out: Vec<crate::ir::IrCallback> = Vec::new();
    let mut k: usize = 0;
    while k < names.len()
        invariant
            k <= names.len(),
            us == usages_view(usages@),
            nv == strs(names@),
            callback_name_order(us, nv),
            callbacks_view(out@) =~= nv.take(k as int).map_values(|n: Seq<char>| first_callback(us, n)->0),
        decreases names.len() - k,
    {
        proof {
            assert(nv.contains(nv[k as int]));
            lemma_used_name_first(us, nv[k as int]);
        }
        let c = match first_callback_of(usages, &names[k]) {
            Some(c) => c,
            None => {
                proof {
                    assert(false);
                }
                return out;
            },
        };
        let ghost before = callbacks_view(out@);
        out.push(c);
        assert(callbacks_view(out@) =~= before.push(c@));
        k = k + 1;
    }
    assert(nv.take(k as int) =~= nv);
    proof {
        lemma_callback_name_list(us, nv);
    }
    out
}

// ---------------------------------------------------------------------------
// Handles the facade covers
// ---------------------------------------------------------------------------

/// The handles that already have a Go wrapper: the classes' and the known projections'.
pub open spec fn covered_handle(ctx: PipelineContextV, cs: Seq<FacadeClassV>, h: Seq<char>) -> bool {
    (exists|k: int| 0 <= k < cs.len() && #[trigger] cs[k].handle_name == h) || (exists|k: int|
        0 <= k < ctx.known_model_projections.len() && #[trigger] ctx.known_model_projections[k].handle_name == h)
}

/// The class handles, then the projections' handles.
pub open spec fn covered_seq(ctx: PipelineContextV, cs: Seq<FacadeClassV>) -> Seq<Seq<char>> {
    cs.map_values(|c: FacadeClassV| c.handle_name) + ctx.known_model_projections.map_values(
        |p: crate::projection::ModelProjectionV| p.handle_name,
    )
}

pub fn covered_handles_of(ctx: &PipelineContext, classes: &Vec<FacadeClass>) -> (r: Vec<String>)
    ensures
        strs(r@) == covered_seq(ctx@, classes_view(classes@)),
        forall|h: Seq<char>| #[trigger] strs(r@).contains(h) <==> covered_handle(ctx@, classes_view(classes@), h),
{
    let ghost cs = classes_view(classes@);
    let ghost ps = ctx@.known_model_projections;
    let mut out: Vec<String> = Vec::new();
    let mut i: usize = 0;
    while i < classes.len()
        invariant
            i <= classes.len(),
            cs == classes_view(classes@),
            strs(out@) =~= cs.take(i as int).map_values(|c: FacadeClassV| c.handle_name),
        decreases classes.len() - i,
    {
        let ghost before = strs(out@);
        out.push(classes[i].handle_name.clone());
        assert(strs(out@) =~= before.push(cs[i as int].handle_name));
        i = i + 1;
    }
    assert(cs.take(i as int) =~= cs);
    let ghost mid = strs(out@);
    let mut j: usize = 0;
    while j < ctx.known_model_projections.len()
        invariant
            j <= ctx.known_model_projections.len(),
            ps == ctx@.known_model_projections,
            mid == cs.map_values(|c: FacadeClassV| c.handle_name),
            strs(out@) =~= mid + ps.take(j as int).map_values(|p: crate::projection::ModelProjectionV| p.handle_name),
        decreases ctx.known_model_projections.len() - j,
    {
        let ghost before = strs(out@);
        out.push(ctx.known_model_projections[j].handle_name.clone());
        proof {
            assert(ps[j as int] == ctx.known_model_projections@[j as int]@);
        }
        assert(strs(out@) =~= before.push(ps[j as int].handle_name));
        j = j + 1;
    }
    assert(ps.take(j as int) =~= ps);
    proof {
        let all = strs(out@);
        assert forall|h: Seq<char>| #[trigger] all.contains(h) <==> covered_handle(ctx@, cs, h) by {
            if all.contains(h) {
                let t = choose|t: int| 0 <= t < all.len() && all[t] == h;
                if t < cs.len() {
                    assert(cs[t].handle_name == h);
                } else {
                    assert(ps[t - cs.len()].handle_name == h);
                }
            }
            if exists|k: int| 0 <= k < cs.len() && #[trigger] cs[k].handle_name == h {
                let k = choose|k: int| 0 <= k < cs.len() && #[trigger] cs[k].handle_name == h;
                assert(all[k] == h);
            }
            if exists|k: int| 0 <= k < ps.len() && #[trigger] ps[k].handle_name == h {
                let k = choose|k: int| 0 <= k < ps.len() && #[trigger] ps[k].handle_name == h;
                assert(all[cs.len() + k] == h);
            }
        }
    }
    out
}

/// A handle of a model returned by value that no wrapper covers: Go owns such values.
pub open spec fn owned_value_handle(
    ctx: PipelineContextV,
    fs: Seq<IrFunctionV>,
    cs: Seq<FacadeClassV>,
    h: Seq<char>,
) -> bool {
    (exists|k: int| 0 <= k < fs.len() && #[trigger] fs[k].returns.kind == IrTypeKind::ModelValue && fs[k].returns.handle == Some(h))
        && !covered_handle(ctx, cs, h)
}

/// `hs` lists the owned value handles, each once, ascending.
pub open spec fn owned_handle_order(ctx: PipelineContextV, fs: Seq<IrFunctionV>, cs: Seq<FacadeClassV>, hs: Seq<Seq<char>>) -> bool {
    &&& sorted_strict(hs)
    &&& forall|h: Seq<char>| #[trigger] hs.contains(h) <==> owned_value_handle(ctx, fs, cs, h)
}

pub open spec fn owned_handle_list(ctx: PipelineContextV, fs: Seq<IrFunctionV>, cs: Seq<FacadeClassV>) -> Seq<Seq<char>> {
    choose|hs: Seq<Seq<char>>| owned_handle_order(ctx, fs, cs, hs)
}

/// The handles of uncovered models returned by value by the functions or the classes'
/// methods, each once, ascending.
pub fn collect_owned_opaque_model_value_handles(
    ctx: &PipelineContext,
    functions: &Vec<IrFunction>,
    classes: &Vec<FacadeClass>,
) -> (r: Vec<String>)
    ensures
        strs(r@) == owned_handle_list(ctx@, functions_view(functions@) + class_methods_all(classes_view(classes@)), classes_view(classes@)),
{
    let ghost cs = classes_view(classes@);
    let ghost all = functions_view(functions@) + class_methods_all(cs);
    let covered = covered_handles_of(ctx, classes);
    let mut all_fns: Vec<IrFunction> = Vec::new();
    let mut i: usize = 0;
    while i < functions.len()
        invariant
            i <= functions.len(),
            functions_view(all_fns@) =~= functions_view(functions@).take(i as int),
        decreases functions.len() - i,
    {
        let ghost before = functions_view(all_fns@);
        all_fns.push(functions[i].copy());
        assert(functions_view(all_fns@) =~= before.push(functions@[i as int]@));
        i = i + 1;
    }
    assert(functions_view(functions@).take(i as int) =~= functions_view(functions@));
    let mut k: usize = 0;
    while k < classes.len()
        invariant
            k <= classes.len(),
            cs == classes_view(classes@),
            functions_view(all_fns@) =~= functions_view(functions@) + class_methods_all(cs.take(k as int)),
        decreases classes.len() - k,
    {
        assert(cs.take(k + 1).drop_last() =~= cs.take(k as int));
        assert(cs.take(k + 1).last() == classes@[k as int]@);
        let ms = &classes[k].methods;
        let ghost start = functions_view(all_fns@);
        let mut j: usize = 0;
        while j < ms.len()
            invariant
                j <= ms.len(),
                functions_view(all_fns@) =~= start + functions_view(ms@).take(j as int),
            decreases ms.len() - j,
        {
            let ghost before = functions_view(all_fns@);
            all_fns.push(ms[j].copy());
            assert(functions_view(all_fns@) =~= before.push(ms@[j as int]@));
            j = j + 1;
        }
        assert(functions_view(ms@).take(j as int) =~= functions_view(ms@));
        k = k + 1;
    }
    assert(cs.take(k as int) =~= cs);
    let mut found: Vec<String> = Vec::new();
    let mut t: usize = 0;
    while t < all_fns.len()
        invariant
            t <= all_fns.len(),
            all == functions_view(all_fns@),
            cs == classes_view(classes@),
            forall|h: Seq<char>| #[trigger] strs(covered@).contains(h) <==> covered_handle(ctx@, cs, h),
            forall|h: Seq<char>| #[trigger] strs(found@).contains(h) <==> ((exists|q: int| 0 <= q < t && #[trigger] all[q].returns.kind == IrTypeKind::ModelValue && all[q].returns.handle == Some(h)) && !covered_handle(ctx@, cs, h)),
        decreases all_fns.len() - t,
    {
        let f = &all_fns[t];
        assert(all[t as int] == f@);
        let ghost before = strs(found@);
        let mut added = false;
        if f.returns.kind == IrTypeKind::ModelValue {
            match &f.returns.handle {
                Some(h) => {
                    if !crate::ir::contains_str(&covered, crate::text::chars_of(h.as_str()).as_slice()) {
                        found.push(h.clone());
                        added = true;
                    }
                },
                None => {},
            }
        }
        proof {
            let now = strs(found@);
            if added {
                assert(now =~= before.push(f@.returns.handle->0));
            } else {
                assert(now =~= before);
            }
            assert forall|h: Seq<char>| #[trigger] now.contains(h) <==> ((exists|q: int| 0 <= q < t + 1 && #[trigger] all[q].returns.kind == IrTypeKind::ModelValue && all[q].returns.handle == Some(h)) && !covered_handle(ctx@, cs, h)) by {
                if now.contains(h) {
                    let w = choose|w: int| 0 <= w < now.len() && now[w] == h;
                    if added && w == before.len() {
                        assert(0 <= t < t + 1 && all[t as int].returns.kind == IrTypeKind::ModelValue && all[t as int].returns.handle == Some(h));
                    } else {
                        assert(before[w] == h);
                        assert(before.contains(h));
                        let q = choose|q: int| 0 <= q < t && #[trigger] all[q].returns.kind == IrTypeKind::ModelValue && all[q].returns.handle == Some(h);
                        assert(0 <= q < t + 1);
                    }
                }
                if (exists|q: int| 0 <= q < t + 1 && #[trigger] all[q].returns.kind == IrTypeKind::ModelValue && all[q].returns.handle == Some(h)) && !covered_handle(ctx@, cs, h) {
                    let q = choose|q: int| 0 <= q < t + 1 && #[trigger] all[q].returns.kind == IrTypeKind::ModelValue && all[q].returns.handle == Some(h);
                    if q == t {
                        assert(added);
                        assert(now[before.len() as int] == h);
                    } else {
                        assert(before.contains(h));
                        let w = choose|w: int| 0 <= w < before.len() && before[w] == h;
                        assert(now[w] == h);
                    }
                }
            }
        }
        t = t + 1;
    }
    let r = crate::pipeline::sorted_unique(&found);
    proof {
        let hv = strs(r@);
        assert(owned_handle_order(ctx@, all, cs, hv));
        let c = owned_handle_list(ctx@, all, cs);
        assert(owned_handle_order(ctx@, all, cs, c));
        assert forall|x: Seq<char>| c.contains(x) <==> hv.contains(x) by {}
        lemma_sorted_set_unique(c, hv);
    }
    r
}

} // verus!
