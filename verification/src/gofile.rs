//! The Go facade file of one module: package clause, cgo preamble, imports, constants,
//! enums, callbacks, free functions, dispatchers, opaque wrappers and class wrappers.
use vstd::prelude::*;

use crate::assemble::symbols_distinct;
use crate::calls::{
    any_param, callback_params_renderable, class_struct_text, close_text, constructor_renderable,
    constructor_text, free_function_text, free_renderable, helpers_text, method_renderable,
    method_text, owned_opaque_text, return_renderable, test_of, ParamTest,
};
use crate::case::{go_export, receiver};
use crate::context::{PipelineContext, PipelineContextV};
use crate::dispatch::{
    arity_list, disp_list, disp_params, dispatcher_renderable, dispatcher_text, export_list,
    DispatcherV,
};
use crate::facade::{
    callbacks_view, classes_view, constants_text, constants_view, covered_seq, ctor_names,
    enum_text, export_text, keyed_all, registry_text, usages_view, used_callback_list,
    callback_type_text, CallbackUsage, CallbackUsageV, FacadeClass, FacadeClassV,
};
use crate::header::{params_use_timeval, timeval_type};
use crate::ir::{functions_view, strs, IrEnum, IrEnumV, IrFunction, IrFunctionV, IrMacroConstant};
use crate::kind::{IrFunctionKind, IrTypeKind};
use crate::text::{push_str, push_string};
use crate::calls::{cat2, cat3};

verus! {

// ---------------------------------------------------------------------------
// What the file needs
// ---------------------------------------------------------------------------

/// Every function of the classes: constructors, destructor, methods, class by class.
pub open spec fn class_fns(cs: Seq<FacadeClassV>) -> Seq<IrFunctionV>
    decreases cs.len(),
{
    if cs.len() == 0 {
        seq![]
    } else {
        class_fns(cs.drop_last()) + cs.last().constructors + seq![cs.last().destructor] + cs.last().methods
    }
}

pub open spec fn class_ctors(cs: Seq<FacadeClassV>) -> Seq<IrFunctionV>
    decreases cs.len(),
{
    if cs.len() == 0 {
        seq![]
    } else {
        class_ctors(cs.drop_last()) + cs.last().constructors
    }
}

pub open spec fn fn_timeval(f: IrFunctionV) -> bool {
    timeval_type(f.returns) || params_use_timeval(f.params)
}

pub open spec fn error_kind(k: IrTypeKind) -> bool {
    k == IrTypeKind::String || k == IrTypeKind::CString || k == IrTypeKind::FixedByteArray || k
        == IrTypeKind::FixedArray || k == IrTypeKind::FixedModelArray
}

pub open spec fn unsafe_params(ps: Seq<crate::ir::IrParamV>, from: int) -> bool {
    any_param(ps, from, test_of(ParamTest::Strings)) || any_param(ps, from, test_of(ParamTest::Pointers))
        || any_param(ps, from, test_of(ParamTest::ByteArrays)) || any_param(ps, from, test_of(ParamTest::VoidModels))
}

/// Which property of a function `any_function` looks for.
pub enum FnTest {
    TimeVal,
    ErrorResult,
    UnsafeFree,
    UnsafeConstructor,
    UnsafeMethod,
}

pub open spec fn fn_passes(t: FnTest, f: IrFunctionV) -> bool {
    match t {
        FnTest::TimeVal => fn_timeval(f),
        FnTest::ErrorResult => error_kind(f.returns.kind),
        FnTest::UnsafeFree => unsafe_params(f.params, 0) || f.returns.kind == IrTypeKind::Pointer || f.returns.kind
            == IrTypeKind::FixedByteArray || f.returns.kind == IrTypeKind::FixedArray || f.returns.kind
            == IrTypeKind::FixedModelArray,
        FnTest::UnsafeConstructor => unsafe_params(f.params, 0),
        FnTest::UnsafeMethod => unsafe_params(f.params, 1) || f.returns.kind == IrTypeKind::Pointer || f.returns.kind
            == IrTypeKind::FixedByteArray,
    }
}

pub open spec fn any_fn(fs: Seq<IrFunctionV>, t: FnTest) -> bool {
    exists|k: int| 0 <= k < fs.len() && #[trigger] fn_passes(t, fs[k])
}

fn passes(f: &IrFunction, t: &FnTest) -> (b: bool)
    ensures
        b == fn_passes(*t, f@),
{
    match t {
        FnTest::TimeVal => crate::header::is_timeval(&f.returns) || crate::header::params_timeval(&f.params),
        FnTest::ErrorResult => match f.returns.kind {
            IrTypeKind::String | IrTypeKind::CString | IrTypeKind::FixedByteArray | IrTypeKind::FixedArray
            | IrTypeKind::FixedModelArray => true,
            _ => false,
        },
        FnTest::UnsafeFree => unsafe_from(&f.params, 0) || match f.returns.kind {
            IrTypeKind::Pointer | IrTypeKind::FixedByteArray | IrTypeKind::FixedArray | IrTypeKind::FixedModelArray => true,
            _ => false,
        },
        FnTest::UnsafeConstructor => unsafe_from(&f.params, 0),
        FnTest::UnsafeMethod => unsafe_from(&f.params, 1) || match f.returns.kind {
            IrTypeKind::Pointer | IrTypeKind::FixedByteArray => true,
            _ => false,
        },
    }
}

fn unsafe_from(params: &Vec<crate::ir::IrParam>, from: usize) -> (b: bool)
    ensures
        b == unsafe_params(crate::ir::params_view(params@), from as int),
{
    crate::calls::param_test(params, from, ParamTest::Strings) || crate::calls::param_test(params, from, ParamTest::Pointers)
        || crate::calls::param_test(params, from, ParamTest::ByteArrays) || crate::calls::param_test(
        params,
        from,
        ParamTest::VoidModels,
    )
}

pub fn any_function(fs: &Vec<IrFunction>, t: FnTest) -> (b: bool)
    ensures
        b == any_fn(functions_view(fs@), t),
{
    let ghost v = functions_view(fs@);
    let mut i: usize = 0;
    while i < fs.len()
        invariant
            i <= fs.len(),
            v == functions_view(fs@),
            forall|k: int| 0 <= k < i ==> !(#[trigger] fn_passes(t, v[k])),
        decreases fs.len() - i,
    {
        assert(v[i as int] == fs@[i as int]@);
        if passes(&fs[i], &t) {
            assert(fn_passes(t, v[i as int]));
            return true;
        }
        i = i + 1;
    }
    false
}

fn append_functions(dst: &mut Vec<IrFunction>, src: &Vec<IrFunction>)
    ensures
        functions_view(final(dst)@) == functions_view(old(dst)@) + functions_view(src@),
{
    let ghost start = functions_view(dst@);
    let mut i: usize = 0;
    while i < src.len()
        invariant
            i <= src.len(),
            functions_view(dst@) =~= start + functions_view(src@).take(i as int),
        decreases src.len() - i,
    {
        let ghost before = functions_view(dst@);
        dst.push(src[i].copy());
        assert(functions_view(dst@) =~= before.push(src@[i as int]@));
        i = i + 1;
    }
    assert(functions_view(src@).take(i as int) =~= functions_view(src@));
}

/// The classes' functions, and their constructors, each as one list.
pub fn class_function_lists(classes: &Vec<FacadeClass>) -> (r: (Vec<IrFunction>, Vec<IrFunction>, Vec<IrFunction>))
    ensures
        functions_view(r.0@) == class_fns(classes_view(classes@)),
        functions_view(r.1@) == class_ctors(classes_view(classes@)),
        functions_view(r.2@) == crate::facade::class_methods_all(classes_view(classes@)),
{
    let ghost cs = classes_view(classes@);
    let mut all: Vec<IrFunction> = Vec::new();
    let mut ctors: Vec<IrFunction> = Vec::new();
    let mut methods: Vec<IrFunction> = Vec::new();
    let mut k: usize = 0;
    assert(functions_view(all@) =~= Seq::<IrFunctionV>::empty());
    assert(functions_view(ctors@) =~= Seq::<IrFunctionV>::empty());
    assert(functions_view(methods@) =~= Seq::<IrFunctionV>::empty());
    while k < classes.len()
        invariant
            k <= classes.len(),
            cs == classes_view(classes@),
            functions_view(all@) == class_fns(cs.take(k as int)),
            functions_view(ctors@) == class_ctors(cs.take(k as int)),
            functions_view(methods@) == crate::facade::class_methods_all(cs.take(k as int)),
        decreases classes.len() - k,
    {
        assert(cs.take(k + 1).drop_last() =~= cs.take(k as int));
        assert(cs.take(k + 1).last() == classes@[k as int]@);
        let c = &classes[k];
        append_functions(&mut all, &c.constructors);
        let ghost before = functions_view(all@);
        all.push(c.destructor.copy());
        assert(functions_view(all@) =~= before.push(c.destructor@));
        append_functions(&mut all, &c.methods);
        assert(functions_view(all@) =~= class_fns(cs.take(k as int)) + c@.constructors + seq![c@.destructor] + c@.methods);
        append_functions(&mut ctors, &c.constructors);
        append_functions(&mut methods, &c.methods);
        k = k + 1;
    }
    assert(cs.take(k as int) =~= cs);
    (all, ctors, methods)
}

pub open spec fn any_class_with_constructors(cs: Seq<FacadeClassV>) -> bool {
    exists|k: int| 0 <= k < cs.len() && #[trigger] cs[k].constructors.len() > 0
}

/// Whether the file imports `errors`, `unsafe`, and declares `struct timeval`.
pub open spec fn needs_errors(fns: Seq<IrFunctionV>, cs: Seq<FacadeClassV>) -> bool {
    any_class_with_constructors(cs) || any_fn(fns, FnTest::ErrorResult) || any_fn(
        crate::facade::class_methods_all(cs),
        FnTest::ErrorResult,
    )
}

pub open spec fn needs_unsafe(fns: Seq<IrFunctionV>, cs: Seq<FacadeClassV>) -> bool {
    any_fn(fns, FnTest::UnsafeFree) || any_fn(class_ctors(cs), FnTest::UnsafeConstructor) || any_fn(
        crate::facade::class_methods_all(cs),
        FnTest::UnsafeMethod,
    )
}

pub open spec fn needs_timeval(fns: Seq<IrFunctionV>, cs: Seq<FacadeClassV>) -> bool {
    any_fn(fns + class_fns(cs), FnTest::TimeVal)
}

// ---------------------------------------------------------------------------
// The text
// ---------------------------------------------------------------------------

pub open spec fn method_dispatchers(ctx: PipelineContextV, c: FacadeClassV) -> Seq<DispatcherV> {
    disp_list(ctx, c.methods, export_list(c.methods))
}

pub open spec fn any_method_dispatchers(ctx: PipelineContextV, cs: Seq<FacadeClassV>) -> bool {
    exists|k: int| 0 <= k < cs.len() && #[trigger] method_dispatchers(ctx, cs[k]).len() > 0
}

pub open spec fn opt_text(b: bool, t: Seq<char>) -> Seq<char> {
    if b {
        t
    } else {
        seq![]
    }
}

/// Package clause, cgo preamble and imports.
#[verifier::opaque]
pub open spec fn head_text(
    ctx: PipelineContextV,
    fns: Seq<IrFunctionV>,
    cs: Seq<FacadeClassV>,
    usages: Seq<CallbackUsageV>,
) -> Seq<char> {
    "package "@ + crate::pipeline::package_name(ctx.config.output.dir) + "\n\n"@ + opt_text(
        fns.len() > 0 || cs.len() > 0,
        "/*\n"@ + "#include <stdlib.h>\n"@ + opt_text(needs_timeval(fns, cs), "#include <sys/time.h>\n"@) + "#include \""@
            + ctx.config.output.header + "\"\n"@ + "*/\n"@ + "import \"C\"\n\n"@,
    ) + opt_text(needs_errors(fns, cs), "import \"errors\"\n\n"@) + opt_text(
        disp_list(ctx, fns, export_list(fns)).len() > 0 || any_method_dispatchers(ctx, cs),
        "import \"fmt\"\n\n"@,
    ) + opt_text(needs_unsafe(fns, cs), "import \"unsafe\"\n\n"@) + opt_text(usages.len() > 0, "import \"sync\"\n\n"@)
}

#[verifier::opaque]
pub open spec fn enums_text(es: Seq<IrEnumV>) -> Seq<char>
    decreases es.len(),
{
    if es.len() == 0 {
        seq![]
    } else {
        enums_text(es.drop_last()) + enum_text(es.last()) + "\n"@
    }
}

#[verifier::opaque]
pub open spec fn callback_types_text(cbs: Seq<crate::ir::IrCallbackV>) -> Seq<char>
    decreases cbs.len(),
{
    if cbs.len() == 0 {
        seq![]
    } else {
        callback_types_text(cbs.drop_last()) + callback_type_text(cbs.last()) + "\n"@
    }
}

#[verifier::opaque]
pub open spec fn usages_text(us: Seq<CallbackUsageV>) -> Seq<char>
    decreases us.len(),
{
    if us.len() == 0 {
        seq![]
    } else {
        usages_text(us.drop_last()) + registry_text(us.last()) + "\n"@ + export_text(us.last()) + "\n"@
    }
}

#[verifier::opaque]
pub open spec fn free_functions_text(
    ctx: PipelineContextV,
    fs: Seq<IrFunctionV>,
    covered: Seq<Seq<char>>,
    owned: Seq<Seq<char>>,
) -> Seq<char>
    decreases fs.len(),
{
    if fs.len() == 0 {
        seq![]
    } else {
        free_functions_text(ctx, fs.drop_last(), covered, owned) + free_function_text(ctx, fs.last(), covered, owned) + "\n"@
    }
}

#[verifier::opaque]
pub open spec fn dispatchers_text(
    ctx: PipelineContextV,
    ds: Seq<DispatcherV>,
    recv: Option<(Seq<char>, Seq<char>)>,
    covered: Seq<Seq<char>>,
    owned: Seq<Seq<char>>,
) -> Seq<char>
    decreases ds.len(),
{
    if ds.len() == 0 {
        seq![]
    } else {
        dispatchers_text(ctx, ds.drop_last(), recv, covered, owned) + dispatcher_text(
            ctx,
            ds.last(),
            recv,
            arity_list(ds.last().functions),
            covered,
            owned,
        ) + "\n"@
    }
}

/// The Go names that wrappers already take: the classes' and the projections'.
pub open spec fn covered_go_names(ctx: PipelineContextV, cs: Seq<FacadeClassV>) -> Seq<Seq<char>> {
    cs.map_values(|c: FacadeClassV| c.go_name) + ctx.known_model_projections.map_values(
        |p: crate::projection::ModelProjectionV| p.go_name,
    )
}

pub open spec fn opaque_go_name(name: Seq<char>) -> Seq<char> {
    go_export(
        match crate::text::strip_suffix(name, "Handle"@) {
            Some(b) => b,
            None => name,
        },
    )
}

/// An opaque type gets a plain wrapper, or an owning one where Go owns its values; none
/// where another wrapper or another file covers it.
pub open spec fn opaque_text(
    name: Seq<char>,
    covered: Seq<Seq<char>>,
    go_names: Seq<Seq<char>>,
    global: Seq<Seq<char>>,
    local_owned: Seq<Seq<char>>,
) -> Seq<char> {
    let lo = local_owned.contains(name);
    let g = opaque_go_name(name);
    if covered.contains(name) || (global.contains(name) && !lo) || go_names.contains(g) {
        seq![]
    } else if lo {
        owned_opaque_text(g, name)
    } else {
        "type "@ + g + " struct {\n    ptr *C."@ + name + "\n}\n\n"@
    }
}

#[verifier::opaque]
pub open spec fn opaques_text(
    os: Seq<(Seq<char>, Seq<char>)>,
    covered: Seq<Seq<char>>,
    go_names: Seq<Seq<char>>,
    global: Seq<Seq<char>>,
    local_owned: Seq<Seq<char>>,
) -> Seq<char>
    decreases os.len(),
{
    if os.len() == 0 {
        seq![]
    } else {
        opaques_text(os.drop_last(), covered, go_names, global, local_owned) + opaque_text(
            os.last().0,
            covered,
            go_names,
            global,
            local_owned,
        )
    }
}

pub open spec fn constructors_text(
    ctx: PipelineContextV,
    c: FacadeClassV,
    k: nat,
    covered: Seq<Seq<char>>,
    owned: Seq<Seq<char>>,
) -> Seq<char>
    decreases k,
{
    if k == 0 || k > c.constructors.len() {
        seq![]
    } else {
        constructors_text(ctx, c, (k - 1) as nat, covered, owned) + constructor_text(
            ctx,
            c,
            c.constructors[k - 1],
            ctor_names(c)[k - 1],
            covered,
            owned,
        ) + "\n"@
    }
}

pub open spec fn methods_text(
    ctx: PipelineContextV,
    c: FacadeClassV,
    ms: Seq<IrFunctionV>,
    covered: Seq<Seq<char>>,
    owned: Seq<Seq<char>>,
) -> Seq<char>
    decreases ms.len(),
{
    if ms.len() == 0 {
        seq![]
    } else {
        methods_text(ctx, c, ms.drop_last(), covered, owned) + method_text(ctx, c, ms.last(), covered, owned) + "\n"@
    }
}

/// A class: struct, constructors, `Close`, helpers, methods and method dispatchers.
pub open spec fn class_text(ctx: PipelineContextV, c: FacadeClassV, covered: Seq<Seq<char>>, owned: Seq<Seq<char>>) -> Seq<char> {
    class_struct_text(c) + "\n"@ + constructors_text(ctx, c, c.constructors.len(), covered, owned) + close_text(
        receiver(c.go_name),
        c.go_name,
        c.destructor.name,
    ) + "\n"@ + helpers_text(c.go_name, c.handle_name) + "\n"@ + methods_text(ctx, c, c.methods, covered, owned)
        + dispatchers_text(ctx, method_dispatchers(ctx, c), Some((receiver(c.go_name), c.go_name)), covered, owned)
}

#[verifier::opaque]
pub open spec fn classes_text(ctx: PipelineContextV, cs: Seq<FacadeClassV>, covered: Seq<Seq<char>>, owned: Seq<Seq<char>>) -> Seq<char>
    decreases cs.len(),
{
    if cs.len() == 0 {
        seq![]
    } else {
        classes_text(ctx, cs.drop_last(), covered, owned) + class_text(ctx, cs.last(), covered, owned)
    }
}

/// The whole Go file.
pub open spec fn facade_file_text(
    ctx: PipelineContextV,
    constants: Seq<(Seq<char>, Seq<char>)>,
    enums: Seq<IrEnumV>,
    fns: Seq<IrFunctionV>,
    cs: Seq<FacadeClassV>,
    usages: Seq<CallbackUsageV>,
    opaques: Seq<(Seq<char>, Seq<char>)>,
    global: Seq<Seq<char>>,
    owned: Seq<Seq<char>>,
    local_owned: Seq<Seq<char>>,
) -> Seq<char> {
    let covered = covered_seq(ctx, cs);
    head_text(ctx, fns, cs, usages) + opt_text(constants.len() > 0, constants_text(constants) + "\n"@) + enums_text(enums)
        + callback_types_text(used_callback_list(usages)) + usages_text(usages) + free_functions_text(ctx, fns, covered, owned)
        + dispatchers_text(ctx, disp_list(ctx, fns, export_list(fns)), None, covered, owned) + opaques_text(
        opaques,
        covered,
        covered_go_names(ctx, cs),
        global,
        local_owned,
    ) + classes_text(ctx, cs, covered, owned)
}

/// What the free functions need to be rendered.
pub open spec fn free_functions_ok(ctx: PipelineContextV, fs: Seq<IrFunctionV>) -> bool {
    &&& forall|k: int| 0 <= k < fs.len() ==> #[trigger] free_renderable(ctx, fs[k])
    &&& forall|k: int| 0 <= k < fs.len() ==> callback_params_renderable(disp_params(#[trigger] fs[k]))
    &&& forall|k: int| 0 <= k < fs.len() ==> (#[trigger] fs[k]).params.len() < usize::MAX
    &&& symbols_distinct(keyed_all(fs))
}

/// What a class needs to be rendered.
pub open spec fn class_ok(ctx: PipelineContextV, c: FacadeClassV) -> bool {
    &&& forall|k: int| 0 <= k < c.constructors.len() ==> #[trigger] constructor_renderable(ctx, c.constructors[k])
    &&& forall|k: int| 0 <= k < c.methods.len() ==> #[trigger] method_renderable(ctx, c.methods[k])
    &&& forall|k: int| 0 <= k < c.methods.len() ==> callback_params_renderable(disp_params(#[trigger] c.methods[k]))
    &&& forall|k: int| 0 <= k < c.methods.len() ==> (#[trigger] c.methods[k]).params.len() < usize::MAX
    &&& symbols_distinct(keyed_all(c.methods))
}

// ---------------------------------------------------------------------------
// Rendering
// ---------------------------------------------------------------------------

fn render_enums(enums: &Vec<IrEnum>) -> (r: String)
    ensures
        r@ == enums_text(enums@.map_values(|e: IrEnum| e@)),
{
    proof {
        reveal(enums_text);
    }
    let ghost es = enums@.map_values(|e: IrEnum| e@);
    let mut out = String::new();
    let mut i: usize = 0;
    while i < enums.len()
        invariant
            i <= enums.len(),
            es == enums@.map_values(|e: IrEnum| e@),
            out@ == enums_text(es.take(i as int)),
        decreases enums.len() - i,
    {
        proof {
            reveal(enums_text);
        }
        assert(es.take(i + 1).drop_last() =~= es.take(i as int));
        let t = crate::facade::render_go_enum(&enums[i]);
        push_string(&mut out, &t);
        push_str(&mut out, "\n");
        i = i + 1;
    }
    assert(es.take(i as int) =~= es);
    out
}

fn render_callback_types(cbs: &Vec<crate::ir::IrCallback>) -> (r: String)
    ensures
        r@ == callback_types_text(callbacks_view(cbs@)),
{
    proof {
        reveal(callback_types_text);
    }
    let ghost cv = callbacks_view(cbs@);
    let mut out = String::new();
    let mut i: usize = 0;
    while i < cbs.len()
        invariant
            i <= cbs.len(),
            cv == callbacks_view(cbs@),
            out@ == callback_types_text(cv.take(i as int)),
        decreases cbs.len() - i,
    {
        proof {
            reveal(callback_types_text);
        }
        assert(cv.take(i + 1).drop_last() =~= cv.take(i as int));
        let t = crate::facade::render_callback_type(&cbs[i]);
        push_string(&mut out, &t);
        push_str(&mut out, "\n");
        i = i + 1;
    }
    assert(cv.take(i as int) =~= cv);
    out
}

fn render_usages(usages: &Vec<CallbackUsage>) -> (r: String)
    ensures
        r@ == usages_text(usages_view(usages@)),
{
    proof {
        reveal(usages_text);
    }
    let ghost uv = usages_view(usages@);
    let mut out = String::new();
    let mut i: usize = 0;
    while i < usages.len()
        invariant
            i <= usages.len(),
            uv == usages_view(usages@),
            out@ == usages_text(uv.take(i as int)),
        decreases usages.len() - i,
    {
        proof {
            reveal(usages_text);
        }
        assert(uv.take(i + 1).drop_last() =~= uv.take(i as int));
        let a = crate::facade::render_callback_registry(&usages[i]);
        push_string(&mut out, &a);
        push_str(&mut out, "\n");
        let b = crate::facade::render_callback_export(&usages[i]);
        push_string(&mut out, &b);
        push_str(&mut out, "\n");
        i = i + 1;
    }
    assert(uv.take(i as int) =~= uv);
    out
}

fn render_free_functions(
    ctx: &PipelineContext,
    functions: &Vec<IrFunction>,
    covered: &Vec<String>,
    owned: &Vec<String>,
) -> (r: String)
    requires
        free_functions_ok(ctx@, functions_view(functions@)),
    ensures
        r@ == free_functions_text(ctx@, functions_view(functions@), strs(covered@), strs(owned@)),
{
    proof {
        reveal(free_functions_text);
    }
    let ghost fs = functions_view(functions@);
    let mut out = String::new();
    let mut i: usize = 0;
    while i < functions.len()
        invariant
            i <= functions.len(),
            fs == functions_view(functions@),
            free_functions_ok(ctx@, fs),
            out@ == free_functions_text(ctx@, fs.take(i as int), strs(covered@), strs(owned@)),
        decreases functions.len() - i,
    {
        proof {
            reveal(free_functions_text);
        }
        assert(fs.take(i + 1).drop_last() =~= fs.take(i as int));
        assert(fs[i as int] == functions@[i as int]@);
        assert(free_renderable(ctx@, fs[i as int]));
        let t = crate::calls::render_free_function(ctx, &functions[i], covered, owned);
        push_string(&mut out, &t);
        push_str(&mut out, "\n");
        i = i + 1;
    }
    assert(fs.take(i as int) =~= fs);
    out
}

fn render_dispatchers(
    ctx: &PipelineContext,
    fs: Ghost<Seq<IrFunctionV>>,
    ds: &Vec<crate::dispatch::OverloadDispatcher>,
    class: Option<&FacadeClass>,
    covered: &Vec<String>,
    owned: &Vec<String>,
) -> (r: String)
    requires
        crate::dispatch::overloads_ok(ctx@, fs@),
        forall|i: int| 0 <= i < ds@.len() ==> #[trigger] crate::dispatch::dispatcher_sound(ctx@, fs@, crate::dispatch::dispatchers_view(ds@)[i]),
    ensures
        r@ == dispatchers_text(
            ctx@,
            crate::dispatch::dispatchers_view(ds@),
            match class {
                Some(c) => Some((receiver(c@.go_name), c@.go_name)),
                None => None,
            },
            strs(covered@),
            strs(owned@),
        ),
{
    proof {
        reveal(dispatchers_text);
    }
    let ghost dv = crate::dispatch::dispatchers_view(ds@);
    let ghost recv: Option<(Seq<char>, Seq<char>)> = match class {
        Some(c) => Some((receiver(c@.go_name), c@.go_name)),
        None => None,
    };
    let mut out = String::new();
    let mut i: usize = 0;
    while i < ds.len()
        invariant
            i <= ds.len(),
            dv == crate::dispatch::dispatchers_view(ds@),
            crate::dispatch::overloads_ok(ctx@, fs@),
            forall|i: int| 0 <= i < ds@.len() ==> #[trigger] crate::dispatch::dispatcher_sound(ctx@, fs@, crate::dispatch::dispatchers_view(ds@)[i]),
            recv == (match class {
                Some(c) => Some((receiver(c@.go_name), c@.go_name)),
                None => None::<(Seq<char>, Seq<char>)>,
            }),
            out@ == dispatchers_text(ctx@, dv.take(i as int), recv, strs(covered@), strs(owned@)),
        decreases ds.len() - i,
    {
        proof {
            reveal(dispatchers_text);
        }
        assert(dv.take(i + 1).drop_last() =~= dv.take(i as int));
        assert(dv[i as int] == ds@[i as int]@);
        assert(crate::dispatch::dispatcher_sound(ctx@, fs@, dv[i as int]));
        proof {
            crate::dispatch::lemma_sound_renderable(ctx@, fs@, dv[i as int]);
        }
        let t = match class {
            Some(c) => crate::dispatch::render_method_dispatcher(ctx, c, &ds[i], covered, owned),
            None => crate::dispatch::render_free_function_dispatcher(ctx, &ds[i], covered, owned),
        };
        push_string(&mut out, &t);
        push_str(&mut out, "\n");
        i = i + 1;
    }
    assert(dv.take(i as int) =~= dv);
    out
}

fn covered_go_names_of(ctx: &PipelineContext, classes: &Vec<FacadeClass>) -> (r: Vec<String>)
    ensures
        strs(r@) == covered_go_names(ctx@, classes_view(classes@)),
{
    let ghost cs = classes_view(classes@);
    let ghost ps = ctx@.known_model_projections;
    let mut out: Vec<String> = Vec::new();
    let mut i: usize = 0;
    while i < classes.len()
        invariant
            i <= classes.len(),
            cs == classes_view(classes@),
            strs(out@) =~= cs.take(i as int).map_values(|c: FacadeClassV| c.go_name),
        decreases classes.len() - i,
    {
        let ghost before = strs(out@);
        out.push(classes[i].go_name.clone());
        assert(strs(out@) =~= before.push(cs[i as int].go_name));
        i = i + 1;
    }
    assert(cs.take(i as int) =~= cs);
    let ghost mid = strs(out@);
    let mut j: usize = 0;
    while j < ctx.known_model_projections.len()
        invariant
            j <= ctx.known_model_projections.len(),
            ps == ctx@.known_model_projections,
            mid == cs.map_values(|c: FacadeClassV| c.go_name),
            strs(out@) =~= mid + ps.take(j as int).map_values(|p: crate::projection::ModelProjectionV| p.go_name),
        decreases ctx.known_model_projections.len() - j,
    {
        let ghost before = strs(out@);
        out.push(ctx.known_model_projections[j].go_name.clone());
        proof {
            assert(ps[j as int] == ctx.known_model_projections@[j as int]@);
        }
        assert(strs(out@) =~= before.push(ps[j as int].go_name));
        j = j + 1;
    }
    assert(ps.take(j as int) =~= ps);
    out
}

fn has_str(v: &Vec<String>, s: &String) -> (b: bool)
    ensures
        b == strs(v@).contains(s@),
{
    crate::ir::contains_str(v, crate::text::chars_of(s.as_str()).as_slice())
}

fn render_opaques(
    opaque_types: &Vec<crate::ir::OpaqueType>,
    covered: &Vec<String>,
    go_names: &Vec<String>,
    global: &Vec<String>,
    local_owned: &Vec<String>,
) -> (r: String)
    ensures
        r@ == opaques_text(crate::ir::opaques_view(opaque_types@), strs(covered@), strs(go_names@), strs(global@), strs(local_owned@)),
{
    proof {
        reveal(opaques_text);
    }
    let ghost os = crate::ir::opaques_view(opaque_types@);
    let mut out = String::new();
    let mut i: usize = 0;
    while i < opaque_types.len()
        invariant
            i <= opaque_types.len(),
            os == crate::ir::opaques_view(opaque_types@),
            out@ == opaques_text(os.take(i as int), strs(covered@), strs(go_names@), strs(global@), strs(local_owned@)),
        decreases opaque_types.len() - i,
    {
        proof {
            reveal(opaques_text);
        }
        assert(os.take(i + 1).drop_last() =~= os.take(i as int));
        assert(os[i as int].0 == opaque_types@[i as int].name@);
        let name = &opaque_types[i].name;
        let lo = has_str(local_owned, name);
        let hv = crate::text::chars_of(name.as_str());
        let base = match crate::text::strip_suffix_lit(hv.as_slice(), "Handle") {
            Some(b) => crate::text::string_of(b.as_slice()),
            None => name.clone(),
        };
        let g = crate::case::go_export_name(base.as_str());
        if has_str(covered, name) || (has_str(global, name) && !lo) || has_str(go_names, &g) {
        } else if lo {
            let t = crate::calls::render_owned_opaque_wrapper(g.as_str(), name.as_str());
            push_string(&mut out, &t);
        } else {
            push_str(&mut out, "type ");
            push_string(&mut out, &g);
            push_str(&mut out, " struct {\n    ptr *C.");
            push_string(&mut out, name);
            push_str(&mut out, "\n}\n\n");
        }
        i = i + 1;
    }
    assert(os.take(i as int) =~= os);
    out
}

fn render_constructors(
    ctx: &PipelineContext,
    class: &FacadeClass,
    covered: &Vec<String>,
    owned: &Vec<String>,
) -> (r: String)
    requires
        class_ok(ctx@, class@),
    ensures
        r@ == constructors_text(ctx@, class@, class@.constructors.len(), strs(covered@), strs(owned@)),
{
    let ghost c = class@;
    let names = crate::facade::go_constructor_export_names(class);
    assert(strs(names@).len() == names@.len());
    let mut out = String::new();
    let mut k: usize = 0;
    while k < class.constructors.len()
        invariant
            k <= class.constructors.len(),
            c == class@,
            class_ok(ctx@, c),
            strs(names@) == ctor_names(c),
            names.len() == class.constructors.len(),
            out@ == constructors_text(ctx@, c, k as nat, strs(covered@), strs(owned@)),
        decreases class.constructors.len() - k,
    {
        assert(c.constructors[k as int] == class.constructors@[k as int]@);
        assert(constructor_renderable(ctx@, c.constructors[k as int]));
        assert(strs(names@)[k as int] == names@[k as int]@);
        let t = crate::calls::render_facade_constructor(ctx, class, &class.constructors[k], names[k].as_str(), covered, owned);
        push_string(&mut out, &t);
        push_str(&mut out, "\n");
        k = k + 1;
    }
    out
}

fn render_methods(
    ctx: &PipelineContext,
    class: &FacadeClass,
    covered: &Vec<String>,
    owned: &Vec<String>,
) -> (r: String)
    requires
        class_ok(ctx@, class@),
    ensures
        r@ == methods_text(ctx@, class@, class@.methods, strs(covered@), strs(owned@)),
{
    let ghost c = class@;
    let ghost ms = c.methods;
    let mut out = String::new();
    let mut m: usize = 0;
    while m < class.methods.len()
        invariant
            m <= class.methods.len(),
            c == class@,
            ms == c.methods,
            class_ok(ctx@, c),
            out@ == methods_text(ctx@, c, ms.take(m as int), strs(covered@), strs(owned@)),
        decreases class.methods.len() - m,
    {
        assert(ms.take(m + 1).drop_last() =~= ms.take(m as int));
        assert(ms[m as int] == class.methods@[m as int]@);
        assert(method_renderable(ctx@, ms[m as int]));
        let t = crate::calls::render_general_api_method(ctx, class, &class.methods[m], covered, owned);
        push_string(&mut out, &t);
        push_str(&mut out, "\n");
        m = m + 1;
    }
    assert(ms.take(m as int) =~= ms);
    out
}

fn render_class_dispatchers(
    ctx: &PipelineContext,
    class: &FacadeClass,
    covered: &Vec<String>,
    owned: &Vec<String>,
) -> (r: String)
    requires
        class_ok(ctx@, class@),
    ensures
        r@ == dispatchers_text(
            ctx@,
            method_dispatchers(ctx@, class@),
            Some((receiver(class@.go_name), class@.go_name)),
            strs(covered@),
            strs(owned@),
        ),
{
    let ghost c = class@;
    proof {
        assert forall|q: int| 0 <= q < c.methods.len() implies #[trigger] crate::gotypes::receiver_bound_ok(c.methods[q]) by {
            assert(method_renderable(ctx@, c.methods[q]));
        }
        assert(crate::facade::all_receivers_ok(c.methods));
    }
    let ds = crate::dispatch::collect_method_dispatchers(ctx, class);
    proof {
        assert forall|q: int| 0 <= q < c.methods.len() implies return_renderable(ctx@, (#[trigger] c.methods[q]).returns) by {
            assert(method_renderable(ctx@, c.methods[q]));
        }
        assert(crate::dispatch::overloads_ok(ctx@, c.methods));
    }
    render_dispatchers(ctx, Ghost(c.methods), &ds, Some(class), covered, owned)
}

fn render_class(
    ctx: &PipelineContext,
    class: &FacadeClass,
    covered: &Vec<String>,
    owned: &Vec<String>,
) -> (r: String)
    requires
        class_ok(ctx@, class@),
    ensures
        r@ == class_text(ctx@, class@, strs(covered@), strs(owned@)),
{
    let mut out = crate::calls::render_facade_class(class);
    push_str(&mut out, "\n");
    let ctors = render_constructors(ctx, class, covered, owned);
    push_string(&mut out, &ctors);
    let close = crate::calls::render_facade_close(class);
    push_string(&mut out, &close);
    push_str(&mut out, "\n");
    let helpers = crate::calls::render_handle_helpers(class);
    push_string(&mut out, &helpers);
    push_str(&mut out, "\n");
    let methods = render_methods(ctx, class, covered, owned);
    push_string(&mut out, &methods);
    let dt = render_class_dispatchers(ctx, class, covered, owned);
    push_string(&mut out, &dt);
    out
}

pub open spec fn classes_ok(ctx: PipelineContextV, cs: Seq<FacadeClassV>) -> bool {
    forall|k: int| 0 <= k < cs.len() ==> #[trigger] class_ok(ctx, cs[k])
}

fn any_constructors(classes: &Vec<FacadeClass>) -> (b: bool)
    ensures
        b == any_class_with_constructors(classes_view(classes@)),
{
    let ghost cs = classes_view(classes@);
    let mut i: usize = 0;
    while i < classes.len()
        invariant
            i <= classes.len(),
            cs == classes_view(classes@),
            forall|k: int| 0 <= k < i ==> !(#[trigger] cs[k].constructors.len() > 0),
        decreases classes.len() - i,
    {
        assert(cs[i as int] == classes@[i as int]@);
        if classes[i].constructors.len() > 0 {
            assert(cs[i as int].constructors.len() > 0);
            return true;
        }
        i = i + 1;
    }
    false
}

fn any_class_dispatchers(ctx: &PipelineContext, classes: &Vec<FacadeClass>) -> (b: bool)
    requires
        classes_ok(ctx@, classes_view(classes@)),
    ensures
        b == any_method_dispatchers(ctx@, classes_view(classes@)),
{
    let ghost cs = classes_view(classes@);
    let mut i: usize = 0;
    while i < classes.len()
        invariant
            i <= classes.len(),
            cs == classes_view(classes@),
            classes_ok(ctx@, cs),
            forall|k: int| 0 <= k < i ==> !(#[trigger] method_dispatchers(ctx@, cs[k]).len() > 0),
        decreases classes.len() - i,
    {
        let c = &classes[i];
        assert(cs[i as int] == c@);
        assert(class_ok(ctx@, c@));
        proof {
            assert forall|q: int| 0 <= q < c@.methods.len() implies #[trigger] crate::gotypes::receiver_bound_ok(c@.methods[q]) by {
                assert(method_renderable(ctx@, c@.methods[q]));
            }
        }
        let ds = crate::dispatch::collect_method_dispatchers(ctx, c);
        if ds.len() > 0 {
            assert(method_dispatchers(ctx@, cs[i as int]).len() > 0);
            return true;
        }
        i = i + 1;
    }
    false
}

fn timeval_flag(functions: &Vec<IrFunction>, all: &Vec<IrFunction>, classes: &Vec<FacadeClass>) -> (b: bool)
    requires
        functions_view(all@) == class_fns(classes_view(classes@)),
    ensures
        b == needs_timeval(functions_view(functions@), classes_view(classes@)),
{
    let mut combined: Vec<IrFunction> = Vec::new();
    assert(functions_view(combined@) =~= Seq::<IrFunctionV>::empty());
    append_functions(&mut combined, functions);
    append_functions(&mut combined, all);
    assert(functions_view(combined@) =~= functions_view(functions@) + class_fns(classes_view(classes@)));
    any_function(&combined, FnTest::TimeVal)
}

fn errors_flag(functions: &Vec<IrFunction>, methods: &Vec<IrFunction>, classes: &Vec<FacadeClass>) -> (b: bool)
    requires
        functions_view(methods@) == crate::facade::class_methods_all(classes_view(classes@)),
    ensures
        b == needs_errors(functions_view(functions@), classes_view(classes@)),
{
    any_constructors(classes) || any_function(functions, FnTest::ErrorResult) || any_function(methods, FnTest::ErrorResult)
}

fn unsafe_flag(
    functions: &Vec<IrFunction>,
    ctors: &Vec<IrFunction>,
    methods: &Vec<IrFunction>,
    classes: &Vec<FacadeClass>,
) -> (b: bool)
    requires
        functions_view(ctors@) == class_ctors(classes_view(classes@)),
        functions_view(methods@) == crate::facade::class_methods_all(classes_view(classes@)),
    ensures
        b == needs_unsafe(functions_view(functions@), classes_view(classes@)),
{
    any_function(functions, FnTest::UnsafeFree) || any_function(ctors, FnTest::UnsafeConstructor) || any_function(
        methods,
        FnTest::UnsafeMethod,
    )
}

fn cgo_block(ctx: &PipelineContext, timeval: bool) -> (r: String)
    ensures
        r@ == "/*\n"@ + "#include <stdlib.h>\n"@ + opt_text(timeval, "#include <sys/time.h>\n"@) + "#include \""@
            + ctx@.config.output.header + "\"\n"@ + "*/\n"@ + "import \"C\"\n\n"@,
{
    let mut out = String::from_str("/*\n");
    push_str(&mut out, "#include <stdlib.h>\n");
    if timeval {
        push_str(&mut out, "#include <sys/time.h>\n");
    } else {
        proof {
            reveal_strlit("");
        }
    }
    push_str(&mut out, "#include \"");
    let inc = ctx.config.generated_header_include(ctx.config.output.header.as_str());
    push_string(&mut out, &inc);
    push_str(&mut out, "\"\n");
    push_str(&mut out, "*/\n");
    push_str(&mut out, "import \"C\"\n\n");
    out
}

fn opt_push(out: &mut String, b: bool, t: &str)
    ensures
        final(out)@ == old(out)@ + opt_text(b, t@),
{
    if b {
        push_str(out, t);
    } else {
        assert(old(out)@ + opt_text(b, t@) =~= old(out)@);
    }
}

fn render_head(
    ctx: &PipelineContext,
    functions: &Vec<IrFunction>,
    classes: &Vec<FacadeClass>,
    usages: &Vec<CallbackUsage>,
    free_dispatchers: usize,
) -> (r: String)
    requires
        classes_ok(ctx@, classes_view(classes@)),
        free_dispatchers == disp_list(ctx@, functions_view(functions@), export_list(functions_view(functions@))).len(),
    ensures
        r@ == head_text(ctx@, functions_view(functions@), classes_view(classes@), usages_view(usages@)),
{
    proof {
        reveal(head_text);
    }
    let pkg = crate::pipeline::go_package_name(ctx.config.output.dir.as_str());
    let mut out = cat3("package ", pkg.as_str(), "\n\n");
    let (all, ctors, methods) = class_function_lists(classes);
    let cgo = functions.len() > 0 || classes.len() > 0;
    let tv = timeval_flag(functions, &all, classes);
    let block = cgo_block(ctx, tv);
    opt_push(&mut out, cgo, block.as_str());
    let er = errors_flag(functions, &methods, classes);
    opt_push(&mut out, er, "import \"errors\"\n\n");
    let fmt = free_dispatchers > 0 || any_class_dispatchers(ctx, classes);
    opt_push(&mut out, fmt, "import \"fmt\"\n\n");
    let un = unsafe_flag(functions, &ctors, &methods, classes);
    opt_push(&mut out, un, "import \"unsafe\"\n\n");
    opt_push(&mut out, usages.len() > 0, "import \"sync\"\n\n");
    out
}

fn render_classes(
    ctx: &PipelineContext,
    classes: &Vec<FacadeClass>,
    covered: &Vec<String>,
    owned: &Vec<String>,
) -> (r: String)
    requires
        classes_ok(ctx@, classes_view(classes@)),
    ensures
        r@ == classes_text(ctx@, classes_view(classes@), strs(covered@), strs(owned@)),
{
    proof {
        reveal(classes_text);
    }
    let ghost cs = classes_view(classes@);
    let mut out = String::new();
    let mut k: usize = 0;
    while k < classes.len()
        invariant
            k <= classes.len(),
            cs == classes_view(classes@),
            classes_ok(ctx@, cs),
            out@ == classes_text(ctx@, cs.take(k as int), strs(covered@), strs(owned@)),
        decreases classes.len() - k,
    {
        proof {
            reveal(classes_text);
        }
        assert(cs.take(k + 1).drop_last() =~= cs.take(k as int));
        assert(cs[k as int] == classes@[k as int]@);
        assert(class_ok(ctx@, cs[k as int]));
        let t = render_class(ctx, &classes[k], covered, owned);
        push_string(&mut out, &t);
        k = k + 1;
    }
    assert(cs.take(k as int) =~= cs);
    out
}

/// The Go facade file of a module.
pub fn render_go_facade_file(
    ctx: &PipelineContext,
    constants: &Vec<IrMacroConstant>,
    enums: &Vec<IrEnum>,
    functions: &Vec<IrFunction>,
    classes: &Vec<FacadeClass>,
    usages: &Vec<CallbackUsage>,
    opaque_types: &Vec<crate::ir::OpaqueType>,
    globally_emitted_opaques: &Vec<String>,
    owned_opaque_value_handles: &Vec<String>,
    local_owned_opaque_value_handles: &Vec<String>,
) -> (r: String)
    requires
        free_functions_ok(ctx@, functions_view(functions@)),
        classes_ok(ctx@, classes_view(classes@)),
    ensures
        r@ == facade_file_text(
            ctx@,
            constants_view(constants@),
            enums@.map_values(|e: IrEnum| e@),
            functions_view(functions@),
            classes_view(classes@),
            usages_view(usages@),
            crate::ir::opaques_view(opaque_types@),
            strs(globally_emitted_opaques@),
            strs(owned_opaque_value_handles@),
            strs(local_owned_opaque_value_handles@),
        ),
{
    let ghost fs = functions_view(functions@);
    let ghost cs = classes_view(classes@);
    proof {
        assert forall|q: int| 0 <= q < fs.len() implies #[trigger] crate::gotypes::receiver_bound_ok(fs[q]) by {
            assert(free_renderable(ctx@, fs[q]));
        }
        assert(crate::facade::all_receivers_ok(fs));
        assert forall|q: int| 0 <= q < fs.len() implies return_renderable(ctx@, (#[trigger] fs[q]).returns) by {
            assert(free_renderable(ctx@, fs[q]));
        }
        assert(crate::dispatch::overloads_ok(ctx@, fs));
    }
    let free_ds = crate::dispatch::collect_free_function_dispatchers(ctx, functions);
    assert(crate::dispatch::dispatchers_view(free_ds@).len() == free_ds@.len());
    let mut out = render_head(ctx, functions, classes, usages, free_ds.len());
    if constants.len() > 0 {
        let t = crate::facade::render_go_constants(constants);
        push_string(&mut out, &t);
        push_str(&mut out, "\n");
    }
    let e = render_enums(enums);
    push_string(&mut out, &e);
    let used = crate::facade::used_callbacks(usages);
    let cbt = render_callback_types(&used);
    push_string(&mut out, &cbt);
    let ut = render_usages(usages);
    push_string(&mut out, &ut);
    let covered = crate::facade::covered_handles_of(ctx, classes);
    let ft = render_free_functions(ctx, functions, &covered, owned_opaque_value_handles);
    push_string(&mut out, &ft);
    let dt = render_dispatchers(ctx, Ghost(fs), &free_ds, None, &covered, owned_opaque_value_handles);
    push_string(&mut out, &dt);
    let go_names = covered_go_names_of(ctx, classes);
    let ot = render_opaques(opaque_types, &covered, &go_names, globally_emitted_opaques, local_owned_opaque_value_handles);
    push_string(&mut out, &ot);
    let ct = render_classes(ctx, classes, &covered, owned_opaque_value_handles);
    push_string(&mut out, &ct);
    out
}

// ---------------------------------------------------------------------------
// The facade of a module
// ---------------------------------------------------------------------------

/// A generated Go source file.
pub struct GeneratedGoFile {
    pub filename: String,
    pub contents: String,
}

/// A free function the facade wraps.
pub open spec fn free_candidate(ctx: PipelineContextV, f: IrFunctionV) -> bool {
    f.kind == IrFunctionKind::Function && crate::gotypes::go_return_ok(f.returns) && crate::gotypes::params_supported(ctx, f.params, 0)
}

pub open spec fn free_fns(ctx: PipelineContextV, fs: Seq<IrFunctionV>) -> Seq<IrFunctionV>
    decreases fs.len(),
{
    if fs.len() == 0 {
        seq![]
    } else if free_candidate(ctx, fs.last()) {
        free_fns(ctx, fs.drop_last()).push(fs.last())
    } else {
        free_fns(ctx, fs.drop_last())
    }
}

/// A method or constructor that ends up in a class wrapper.
pub open spec fn rendered_method(ctx: PipelineContextV, fs: Seq<IrFunctionV>, f: IrFunctionV) -> bool {
    crate::facade::method_candidate(ctx, f) && crate::facade::destructor_of(fs, f.owner_cpp_type->0) is Some
}

pub open spec fn rendered_constructor(ctx: PipelineContextV, fs: Seq<IrFunctionV>, f: IrFunctionV) -> bool {
    &&& f.kind == IrFunctionKind::Constructor
    &&& f.owner_cpp_type is Some
    &&& crate::gotypes::params_supported(ctx, f.params, 0)
    &&& crate::facade::candidate_owner(ctx, fs, f.owner_cpp_type->0)
    &&& crate::facade::destructor_of(fs, f.owner_cpp_type->0) is Some
}

/// What a wrapped free function needs to be rendered.
pub open spec fn free_item_ok(ctx: PipelineContextV, f: IrFunctionV) -> bool {
    &&& free_renderable(ctx, f)
    &&& callback_params_renderable(disp_params(f))
    &&& f.params.len() < usize::MAX
}

/// What the IR needs for its facade to be rendered: every wrapped function can be
/// rendered (the generator stops otherwise).
pub open spec fn facade_ok(ctx: PipelineContextV, fs: Seq<IrFunctionV>) -> bool {
    &&& crate::facade::candidates_receivers_ok(ctx, fs)
    &&& forall|k: int| 0 <= k < fs.len() && #[trigger] free_candidate(ctx, fs[k]) ==> free_item_ok(ctx, fs[k])
    &&& forall|k: int| 0 <= k < fs.len() && #[trigger] rendered_method(ctx, fs, fs[k]) ==> {
        &&& method_renderable(ctx, fs[k])
        &&& callback_params_renderable(disp_params(fs[k]))
        &&& fs[k].params.len() < usize::MAX
    }
    &&& forall|k: int| 0 <= k < fs.len() && #[trigger] rendered_constructor(ctx, fs, fs[k]) ==> constructor_renderable(ctx, fs[k])
}

proof fn lemma_methods_member(ctx: PipelineContextV, fs: Seq<IrFunctionV>, o: Seq<char>, x: IrFunctionV)
    requires
        crate::facade::methods_of(ctx, fs, o).contains(x),
    ensures
        exists|k: int| 0 <= k < fs.len() && fs[k] == x,
        crate::facade::method_candidate(ctx, x),
        x.owner_cpp_type == Some(o),
    decreases fs.len(),
{
    let m = crate::facade::methods_of(ctx, fs, o);
    let m0 = crate::facade::methods_of(ctx, fs.drop_last(), o);
    if crate::facade::method_candidate(ctx, fs.last()) && fs.last().owner_cpp_type == Some(o) && x == fs.last() {
        assert(fs[fs.len() - 1] == x);
    } else {
        if crate::facade::method_candidate(ctx, fs.last()) && fs.last().owner_cpp_type == Some(o) {
            let t = choose|t: int| 0 <= t < m.len() && m[t] == x;
            assert(m == m0.push(fs.last()));
            assert(t < m0.len());
            assert(m0[t] == x);
        }
        lemma_methods_member(ctx, fs.drop_last(), o, x);
        let k = choose|k: int| 0 <= k < fs.drop_last().len() && fs.drop_last()[k] == x;
        assert(fs[k] == x);
    }
}

proof fn lemma_constructors_member(ctx: PipelineContextV, fs: Seq<IrFunctionV>, o: Seq<char>, x: IrFunctionV)
    requires
        crate::facade::constructors_of(ctx, fs, o).contains(x),
    ensures
        exists|k: int| 0 <= k < fs.len() && fs[k] == x,
        crate::facade::constructor_of(ctx, x, o),
    decreases fs.len(),
{
    let m = crate::facade::constructors_of(ctx, fs, o);
    let m0 = crate::facade::constructors_of(ctx, fs.drop_last(), o);
    if crate::facade::constructor_of(ctx, fs.last(), o) && x == fs.last() {
        assert(fs[fs.len() - 1] == x);
    } else {
        if crate::facade::constructor_of(ctx, fs.last(), o) {
            let t = choose|t: int| 0 <= t < m.len() && m[t] == x;
            assert(m == m0.push(fs.last()));
            assert(t < m0.len());
            assert(m0[t] == x);
        }
        lemma_constructors_member(ctx, fs.drop_last(), o, x);
        let k = choose|k: int| 0 <= k < fs.drop_last().len() && fs.drop_last()[k] == x;
        assert(fs[k] == x);
    }
}

proof fn lemma_class_ok(ctx: PipelineContextV, fs: Seq<IrFunctionV>, o: Seq<char>)
    requires
        facade_ok(ctx, fs),
        crate::facade::candidate_owner(ctx, fs, o),
        crate::facade::class_of(ctx, fs, o) is Some,
        crate::facade::exports_check(crate::facade::methods_of(ctx, fs, o), crate::facade::method_prefix(o), "` collides for: "@) is Ok,
    ensures
        class_ok(ctx, crate::facade::class_of(ctx, fs, o)->0),
{
    let c = crate::facade::class_of(ctx, fs, o)->0;
    assert forall|k: int| 0 <= k < c.constructors.len() implies #[trigger] constructor_renderable(ctx, c.constructors[k]) by {
        let x = c.constructors[k];
        assert(c.constructors.contains(x));
        lemma_constructors_member(ctx, fs, o, x);
        let q = choose|q: int| 0 <= q < fs.len() && fs[q] == x;
        assert(rendered_constructor(ctx, fs, fs[q]));
    }
    assert forall|k: int| 0 <= k < c.methods.len() implies {
        &&& #[trigger] method_renderable(ctx, c.methods[k])
        &&& callback_params_renderable(disp_params(c.methods[k]))
        &&& c.methods[k].params.len() < usize::MAX
    } by {
        let x = c.methods[k];
        assert(c.methods.contains(x));
        lemma_methods_member(ctx, fs, o, x);
        let q = choose|q: int| 0 <= q < fs.len() && fs[q] == x;
        assert(rendered_method(ctx, fs, fs[q]));
    }
    assert forall|k: int| 0 <= k < c.methods.len() implies callback_params_renderable(disp_params(#[trigger] c.methods[k])) by {
        assert(method_renderable(ctx, c.methods[k]));
    }
    assert forall|k: int| 0 <= k < c.methods.len() implies (#[trigger] c.methods[k]).params.len() < usize::MAX by {
        assert(method_renderable(ctx, c.methods[k]));
    }
}

proof fn lemma_classes_ok(ctx: PipelineContextV, fs: Seq<IrFunctionV>, owners: Seq<Seq<char>>)
    requires
        facade_ok(ctx, fs),
        forall|i: int| 0 <= i < owners.len() ==> crate::facade::candidate_owner(ctx, fs, #[trigger] owners[i]),
        crate::facade::classes_from(ctx, fs, owners) is Ok,
    ensures
        classes_ok(ctx, crate::facade::classes_from(ctx, fs, owners)->Ok_0),
    decreases owners.len(),
{
    if owners.len() > 0 {
        let o = owners[0];
        assert(crate::facade::candidate_owner(ctx, fs, owners[0]));
        let rest = owners.drop_first();
        assert forall|i: int| 0 <= i < rest.len() implies crate::facade::candidate_owner(ctx, fs, #[trigger] rest[i]) by {
            assert(rest[i] == owners[i + 1]);
        }
        lemma_classes_ok(ctx, fs, rest);
        let cs = crate::facade::classes_from(ctx, fs, rest)->Ok_0;
        match crate::facade::class_of(ctx, fs, o) {
            Some(c) => {
                lemma_class_ok(ctx, fs, o);
                let all = seq![c] + cs;
                assert forall|k: int| 0 <= k < all.len() implies #[trigger] class_ok(ctx, all[k]) by {
                    if k > 0 {
                        assert(all[k] == cs[k - 1]);
                    }
                }
            },
            None => {},
        }
    }
}

/// The opaque types this file declares: those no other file claimed, and those Go owns here.
pub open spec fn local_opaques(os: Seq<(Seq<char>, Seq<char>)>, global: Seq<Seq<char>>, local_owned: Seq<Seq<char>>) -> Seq<
    (Seq<char>, Seq<char>),
>
    decreases os.len(),
{
    if os.len() == 0 {
        seq![]
    } else if !global.contains(os.last().0) || local_owned.contains(os.last().0) {
        local_opaques(os.drop_last(), global, local_owned).push(os.last())
    } else {
        local_opaques(os.drop_last(), global, local_owned)
    }
}

pub open spec fn files_view(v: Seq<GeneratedGoFile>) -> Seq<(Seq<char>, Seq<char>)> {
    v.map_values(|f: GeneratedGoFile| (f.filename@, f.contents@))
}

pub open spec fn files_result(r: Result<Vec<GeneratedGoFile>, String>) -> Result<Seq<(Seq<char>, Seq<char>)>, Seq<char>> {
    match r {
        Ok(v) => Ok(files_view(v@)),
        Err(e) => Err(e@),
    }
}

/// The facade of a module: nothing when it wraps nothing; else one file, unless class
/// methods or free functions collide on a Go name.
pub open spec fn facade_result(
    ctx: PipelineContextV,
    m: crate::assemble::IrModuleV,
    global: Seq<Seq<char>>,
    global_owned: Seq<Seq<char>>,
    local_owned: Seq<Seq<char>>,
) -> Result<Seq<(Seq<char>, Seq<char>)>, Seq<char>> {
    let fs = m.functions;
    match crate::facade::classes_from(ctx, fs, crate::facade::class_owner_list(ctx, fs)) {
        Err(e) => Err(e),
        Ok(cs) => {
            let fns = free_fns(ctx, fs);
            let usages = crate::facade::usages_of_all(fns + crate::facade::class_methods_all(cs), m.callbacks);
            let fresh = global_owned.len() == 0 && local_owned.len() == 0;
            let owned = if fresh {
                crate::facade::owned_handle_list(ctx, fns + crate::facade::class_methods_all(cs), cs)
            } else {
                global_owned
            };
            let lo = if fresh {
                owned
            } else {
                local_owned
            };
            if fns.len() == 0 && cs.len() == 0 && m.enums.len() == 0 && m.constants.len() == 0 {
                Ok(seq![])
            } else {
                match crate::facade::exports_check(fns, "Go facade export `"@, "` collides for: "@) {
                    Err(e) => Err(e),
                    Ok(_) => Ok(
                        seq![
                            (
                                crate::config::go_file(ctx.config.output.header),
                                facade_file_text(
                                    ctx,
                                    m.constants,
                                    m.enums,
                                    fns,
                                    cs,
                                    usages,
                                    local_opaques(m.opaque_types, global, lo),
                                    global,
                                    owned,
                                    lo,
                                ),
                            ),
                        ],
                    ),
                }
            }
        },
    }
}

fn free_function_list(ctx: &PipelineContext, functions: &Vec<IrFunction>) -> (r: Vec<IrFunction>)
    requires
        facade_ok(ctx@, functions_view(functions@)),
    ensures
        functions_view(r@) == free_fns(ctx@, functions_view(functions@)),
        forall|k: int| 0 <= k < r@.len() ==> #[trigger] free_item_ok(ctx@, functions_view(r@)[k]),
{
    let ghost fs = functions_view(functions@);
    let mut out: Vec<IrFunction> = Vec::new();
    let mut j: usize = 0;
    while j < functions.len()
        invariant
            j <= functions.len(),
            fs == functions_view(functions@),
            facade_ok(ctx@, fs),
            functions_view(out@) == free_fns(ctx@, fs.take(j as int)),
            forall|k: int| 0 <= k < out@.len() ==> #[trigger] free_item_ok(ctx@, functions_view(out@)[k]),
        decreases functions.len() - j,
    {
        assert(fs.take(j + 1).drop_last() =~= fs.take(j as int));
        assert(fs.take(j + 1).last() == fs[j as int]);
        let f = &functions[j];
        assert(fs[j as int] == f@);
        if f.kind == IrFunctionKind::Function && crate::gotypes::free_function_supported(ctx, f) {
            assert(free_candidate(ctx@, fs[j as int]));
            let ghost before = functions_view(out@);
            out.push(f.copy());
            assert(functions_view(out@) =~= before.push(fs[j as int]));
            proof {
                assert forall|k: int| 0 <= k < out@.len() implies #[trigger] free_item_ok(ctx@, functions_view(out@)[k]) by {
                    if k < before.len() {
                        assert(functions_view(out@)[k] == before[k]);
                        assert(free_item_ok(ctx@, before[k]));
                    } else {
                        assert(functions_view(out@)[k] == fs[j as int]);
                        assert(free_candidate(ctx@, fs[j as int]));
                        assert(free_item_ok(ctx@, fs[j as int]));
                    }
                }
            }
        }
        j = j + 1;
    }
    assert(fs.take(j as int) =~= fs);
    out
}

fn local_opaque_list(
    opaque_types: &Vec<crate::ir::OpaqueType>,
    global: &Vec<String>,
    local_owned: &Vec<String>,
) -> (r: Vec<crate::ir::OpaqueType>)
    ensures
        crate::ir::opaques_view(r@) == local_opaques(crate::ir::opaques_view(opaque_types@), strs(global@), strs(local_owned@)),
{
    let ghost os = crate::ir::opaques_view(opaque_types@);
    let mut out: Vec<crate::ir::OpaqueType> = Vec::new();
    let mut j: usize = 0;
    while j < opaque_types.len()
        invariant
            j <= opaque_types.len(),
            os == crate::ir::opaques_view(opaque_types@),
            crate::ir::opaques_view(out@) == local_opaques(os.take(j as int), strs(global@), strs(local_owned@)),
        decreases opaque_types.len() - j,
    {
        assert(os.take(j + 1).drop_last() =~= os.take(j as int));
        assert(os.take(j + 1).last() == os[j as int]);
        let o = &opaque_types[j];
        if !has_str(global, &o.name) || has_str(local_owned, &o.name) {
            let c = crate::ir::OpaqueType { name: o.name.clone(), cpp_type: o.cpp_type.clone() };
            let ghost before = crate::ir::opaques_view(out@);
            out.push(c);
            assert(crate::ir::opaques_view(out@) =~= before.push(os[j as int]));
        }
        j = j + 1;
    }
    assert(os.take(j as int) =~= os);
    out
}

fn copy_list(v: &Vec<String>) -> (r: Vec<String>)
    ensures
        strs(r@) == strs(v@),
{
    crate::ir::copy_strings(v)
}

/// The Go facade of a module, given the opaque types other files already declared and the
/// owned value handles decided across files (both empty for a single module).
pub fn render_go_facade_with_owned_opaques(
    ctx: &PipelineContext,
    ir: &crate::ir::IrModule,
    globally_emitted_opaques: &Vec<String>,
    global_owned_opaque_value_handles: &Vec<String>,
    local_owned_opaque_value_handles: &Vec<String>,
) -> (r: Result<Vec<GeneratedGoFile>, String>)
    requires
        facade_ok(ctx@, functions_view(ir.functions@)),
    ensures
        files_result(r) == facade_result(
            ctx@,
            crate::assemble::module_view(*ir),
            strs(globally_emitted_opaques@),
            strs(global_owned_opaque_value_handles@),
            strs(local_owned_opaque_value_handles@),
        ),
{
    let ghost fs = functions_view(ir.functions@);
    let functions = free_function_list(ctx, &ir.functions);
    let classes = match crate::facade::collect_facade_classes(ctx, ir) {
        Err(e) => {
            return Err(e);
        },
        Ok(c) => c,
    };
    let ghost cs = classes_view(classes@);
    let usages = crate::facade::collect_callback_usages(&functions, &classes, ir);
    let fresh = global_owned_opaque_value_handles.len() == 0 && local_owned_opaque_value_handles.len() == 0;
    let owned = if fresh {
        crate::facade::collect_owned_opaque_model_value_handles(ctx, &functions, &classes)
    } else {
        copy_list(global_owned_opaque_value_handles)
    };
    let local_owned = if fresh {
        copy_list(&owned)
    } else {
        copy_list(local_owned_opaque_value_handles)
    };
    if functions.len() == 0 && classes.len() == 0 && ir.enums.len() == 0 && ir.constants.len() == 0 {
        let v: Vec<GeneratedGoFile> = Vec::new();
        assert(files_view(v@) =~= Seq::<(Seq<char>, Seq<char>)>::empty());
        return Ok(v);
    }
    proof {
        assert forall|q: int| 0 <= q < functions_view(functions@).len() implies #[trigger] crate::gotypes::receiver_bound_ok(functions_view(functions@)[q]) by {
            assert(free_item_ok(ctx@, functions_view(functions@)[q]));
        }
    }
    match crate::facade::ensure_unique_go_exports(&functions) {
        Err(e) => {
            return Err(e);
        },
        Ok(()) => {},
    }
    let local_opaque_types = local_opaque_list(&ir.opaque_types, globally_emitted_opaques, &local_owned);
    proof {
        let owners = crate::facade::class_owner_list(ctx@, fs);
        assert forall|i: int| 0 <= i < owners.len() implies crate::facade::candidate_owner(ctx@, fs, #[trigger] owners[i]) by {
            assert(owners.contains(owners[i]));
        }
        lemma_classes_ok(ctx@, fs, owners);
        let fv = functions_view(functions@);
        assert forall|k: int| 0 <= k < fv.len() implies #[trigger] free_renderable(ctx@, fv[k]) by {
            assert(free_item_ok(ctx@, fv[k]));
        }
        assert forall|k: int| 0 <= k < fv.len() implies callback_params_renderable(disp_params(#[trigger] fv[k])) by {
            assert(free_item_ok(ctx@, fv[k]));
        }
        assert forall|k: int| 0 <= k < fv.len() implies (#[trigger] fv[k]).params.len() < usize::MAX by {
            assert(free_item_ok(ctx@, fv[k]));
        }
        assert(free_functions_ok(ctx@, fv));
    }
    let contents = render_go_facade_file(
        ctx,
        &ir.constants,
        &ir.enums,
        &functions,
        &classes,
        &usages,
        &local_opaque_types,
        globally_emitted_opaques,
        &owned,
        &local_owned,
    );
    let filename = ctx.config.go_filename("");
    let file = GeneratedGoFile { filename, contents };
    let mut v: Vec<GeneratedGoFile> = Vec::new();
    v.push(file);
    proof {
        assert(files_view(v@) =~= seq![(file.filename@, file.contents@)]);
    }
    Ok(v)
}

/// The Go facade of a single module.
pub fn render_go_facade(
    ctx: &PipelineContext,
    ir: &crate::ir::IrModule,
    globally_emitted_opaques: &Vec<String>,
) -> (r: Result<Vec<GeneratedGoFile>, String>)
    requires
        facade_ok(ctx@, functions_view(ir.functions@)),
    ensures
        files_result(r) == facade_result(
            ctx@,
            crate::assemble::module_view(*ir),
            strs(globally_emitted_opaques@),
            seq![],
            seq![],
        ),
{
    let none: Vec<String> = Vec::new();
    let none2: Vec<String> = Vec::new();
    assert(strs(none@) =~= Seq::<Seq<char>>::empty());
    assert(strs(none2@) =~= Seq::<Seq<char>>::empty());
    render_go_facade_with_owned_opaques(ctx, ir, globally_emitted_opaques, &none, &none2)
}

} // verus!
