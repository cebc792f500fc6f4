//! Whether the Go facade of a module can be rendered: every function that ends up in it
//! has the Go and cgo spellings its wrapper needs.
use vstd::prelude::*;

use crate::calls::{
    after_receiver, callback_params_renderable, constructor_renderable, free_renderable,
    method_renderable, param_renderable, params_renderable, return_renderable,
};
use crate::context::PipelineContext;
use crate::dispatch::disp_params;
use crate::facade::{candidate_owner, candidates_receivers_ok, destructor_of, method_candidate};
use crate::gofile::{facade_ok, free_candidate, free_item_ok, rendered_constructor, rendered_method};
use crate::gotypes::receiver_bound_ok;
use crate::ir::{functions_view, IrFunction, IrType};
use crate::kind::{FieldAccessKind, IrFunctionKind, IrTypeKind};

verus! {

fn cgo_cast_known(ty: &IrType) -> (b: bool)
    ensures
        b == (crate::calls::cgo_cast(ty@) is Some),
{
    crate::gotypes::primitive_cgo_cast_type(ty.cpp_type.as_str()).is_some()
        || crate::gotypes::primitive_cgo_cast_type(ty.c_type.as_str()).is_some()
}

/// Whether a parameter of this type can be handed to C.
pub fn param_type_renderable(ty: &IrType) -> (b: bool)
    ensures
        b == param_renderable(ty@),
{
    match ty.kind {
        IrTypeKind::String | IrTypeKind::CString | IrTypeKind::FixedByteArray | IrTypeKind::FixedArray
        | IrTypeKind::FixedModelArray | IrTypeKind::Pointer | IrTypeKind::ModelReference
        | IrTypeKind::ModelPointer | IrTypeKind::ModelValue => true,
        IrTypeKind::Reference => crate::gotypes::go_type_for_reference(ty).is_some() && cgo_cast_known(ty),
        IrTypeKind::ExternStructReference | IrTypeKind::ExternStructPointer => {
            crate::gotypes::extern_struct_go_type(ty).is_some()
        },
        _ => cgo_cast_known(ty),
    }
}

/// Whether a result of this type can be handed back to Go.
pub fn return_type_renderable(ctx: &PipelineContext, ty: &IrType) -> (b: bool)
    ensures
        b == return_renderable(ctx@, ty@),
{
    match ty.kind {
        IrTypeKind::Void | IrTypeKind::String | IrTypeKind::CString | IrTypeKind::FixedByteArray
        | IrTypeKind::FixedArray | IrTypeKind::FixedModelArray => true,
        IrTypeKind::Pointer => crate::gotypes::go_pointer_return_type(ty).is_some(),
        _ => crate::facade::is_model_wrapper_return(ty) || crate::gotypes::go_value_type(ctx, ty).is_some(),
    }
}

/// Whether every parameter from `from` on is a callback or can be handed to C; with
/// `callbacks` false, callbacks get no exception.
fn params_from_renderable(function: &IrFunction, from: usize, callbacks: bool) -> (b: bool)
    requires
        from <= function.params.len(),
    ensures
        b == (forall|k: int| 0 <= k < function@.params.skip(from as int).len() ==>
            (callbacks && function@.params.skip(from as int)[k].ty.kind == IrTypeKind::Callback)
                || #[trigger] param_renderable(function@.params.skip(from as int)[k].ty)),
{
    let ghost ps = function@.params.skip(from as int);
    let mut i: usize = from;
    while i < function.params.len()
        invariant
            from <= i <= function.params.len(),
            ps == function@.params.skip(from as int),
            forall|k: int| 0 <= k < i - from ==> (callbacks && ps[k].ty.kind == IrTypeKind::Callback)
                || #[trigger] param_renderable(ps[k].ty),
        decreases function.params.len() - i,
    {
        let ty = &function.params[i].ty;
        assert(ps[i - from] == function.params@[i as int]@);
        if !((callbacks && ty.kind == IrTypeKind::Callback) || param_type_renderable(ty)) {
            assert(!((callbacks && ps[i - from].ty.kind == IrTypeKind::Callback) || param_renderable(ps[i - from].ty)));
            return false;
        }
        i = i + 1;
    }
    true
}

fn callback_params_from(function: &IrFunction, from: usize) -> (b: bool)
    requires
        from <= function.params.len(),
    ensures
        b == callback_params_renderable(function@.params.skip(from as int)),
{
    params_from_renderable(function, from, true)
}

fn receiver_bound(function: &IrFunction) -> (b: bool)
    ensures
        b == receiver_bound_ok(function@),
{
    !(function.method_of.is_some() && (function.kind == IrFunctionKind::Method || function.kind
        == IrFunctionKind::Destructor)) || function.params.len() >= 1
}

fn after_receiver_start(function: &IrFunction) -> (r: usize)
    ensures
        r <= function.params.len(),
        function@.params.skip(r as int) == after_receiver(function@.params),
{
    if function.params.len() > 0 {
        1
    } else {
        assert(function@.params.skip(0) =~= function@.params);
        0
    }
}

fn free_item_renderable(ctx: &PipelineContext, function: &IrFunction) -> (b: bool)
    ensures
        b == free_item_ok(ctx@, function@),
{
    assert(function@.params.skip(0) =~= function@.params);
    let from = crate::dispatch::dispatcher_param_start(function);
    crate::gotypes::params_supported_from(ctx, function, 0) && receiver_bound(function)
        && return_type_renderable(ctx, &function.returns) && callback_params_from(function, 0)
        && callback_params_from(function, from) && function.params.len() < usize::MAX
}

fn method_item_renderable(ctx: &PipelineContext, function: &IrFunction) -> (b: bool)
    ensures
        b == {
            &&& method_renderable(ctx@, function@)
            &&& callback_params_renderable(disp_params(function@))
            &&& function@.params.len() < usize::MAX
        },
{
    let start = after_receiver_start(function);
    let from = crate::dispatch::dispatcher_param_start(function);
    let set_at_ok = match &function.field_accessor {
        Some(a) => a.access != FieldAccessKind::SetAt || function.params.len() > 2,
        None => true,
    };
    crate::gotypes::params_supported_from(ctx, function, 1) && receiver_bound(function)
        && return_type_renderable(ctx, &function.returns) && callback_params_from(function, start)
        && set_at_ok && callback_params_from(function, from) && function.params.len() < usize::MAX
}

fn constructor_item_renderable(ctx: &PipelineContext, function: &IrFunction) -> (b: bool)
    ensures
        b == constructor_renderable(ctx@, function@),
{
    assert(function@.params.skip(0) =~= function@.params);
    crate::gotypes::params_supported_from(ctx, function, 0) && params_from_renderable(function, 0, false)
}

fn is_method_candidate(ctx: &PipelineContext, function: &IrFunction) -> (b: bool)
    ensures
        b == method_candidate(ctx@, function@),
{
    function.kind == IrFunctionKind::Method && function.owner_cpp_type.is_some()
        && crate::gotypes::method_supported(ctx, function)
}

/// Whether some supported method belongs to `owner`.
fn has_candidate_method(ctx: &PipelineContext, functions: &Vec<IrFunction>, owner: &String) -> (b: bool)
    ensures
        b == candidate_owner(ctx@, functions_view(functions@), owner@),
{
    let ghost fs = functions_view(functions@);
    let mut j: usize = 0;
    while j < functions.len()
        invariant
            j <= functions.len(),
            fs == functions_view(functions@),
            forall|i: int| 0 <= i < j ==> !(#[trigger] method_candidate(ctx@, fs[i]) && fs[i].owner_cpp_type == Some(owner@)),
        decreases functions.len() - j,
    {
        let f = &functions[j];
        assert(fs[j as int] == f@);
        let same = match &f.owner_cpp_type {
            Some(o) => crate::text::str_eq(o.as_str(), owner.as_str()),
            None => false,
        };
        if same && is_method_candidate(ctx, f) {
            assert(method_candidate(ctx@, fs[j as int]) && fs[j as int].owner_cpp_type == Some(owner@));
            return true;
        }
        j = j + 1;
    }
    false
}

/// Whether every function of the module that the facade wraps can be rendered: what
/// `render_go_facade` needs of its module.
pub fn facade_renderable(ctx: &PipelineContext, ir: &crate::ir::IrModule) -> (b: bool)
    ensures
        b == facade_ok(ctx@, functions_view(ir.functions@)),
{
    let functions = &ir.functions;
    let ghost fs = functions_view(functions@);
    let mut k: usize = 0;
    while k < functions.len()
        invariant
            k <= functions.len(),
            fs == functions_view(functions@),
            fs == functions_view(ir.functions@),
            forall|i: int| 0 <= i < k && #[trigger] method_candidate(ctx@, fs[i]) ==> receiver_bound_ok(fs[i]),
            forall|i: int| 0 <= i < k && #[trigger] free_candidate(ctx@, fs[i]) ==> free_item_ok(ctx@, fs[i]),
            forall|i: int| 0 <= i < k && #[trigger] rendered_method(ctx@, fs, fs[i]) ==> {
                &&& method_renderable(ctx@, fs[i])
                &&& callback_params_renderable(disp_params(fs[i]))
                &&& fs[i].params.len() < usize::MAX
            },
            forall|i: int| 0 <= i < k && #[trigger] rendered_constructor(ctx@, fs, fs[i]) ==> constructor_renderable(ctx@, fs[i]),
        decreases functions.len() - k,
    {
        let f = &functions[k];
        assert(fs[k as int] == f@);
        let candidate = is_method_candidate(ctx, f);
        if candidate && !receiver_bound(f) {
            assert(method_candidate(ctx@, fs[k as int]));
            assert(!candidates_receivers_ok(ctx@, fs));
            return false;
        }
        if f.kind == IrFunctionKind::Function && crate::gotypes::free_function_supported(ctx, f) {
            assert(free_candidate(ctx@, fs[k as int]));
            if !free_item_renderable(ctx, f) {
                assert(!free_item_ok(ctx@, fs[k as int]));
                assert(!facade_ok(ctx@, fs));
                return false;
            }
        } else {
            assert(!free_candidate(ctx@, fs[k as int]));
        }
        let owner = match &f.owner_cpp_type {
            Some(o) => o.clone(),
            None => String::new(),
        };
        let has_destructor = f.owner_cpp_type.is_some() && crate::facade::find_destructor(functions, &owner).is_some();
        if candidate && has_destructor {
            assert(rendered_method(ctx@, fs, fs[k as int]));
            if !method_item_renderable(ctx, f) {
                assert(!facade_ok(ctx@, fs));
                return false;
            }
        } else {
            assert(!rendered_method(ctx@, fs, fs[k as int]));
        }
        if f.kind == IrFunctionKind::Constructor && f.owner_cpp_type.is_some()
            && crate::gotypes::free_params_supported(ctx, f) && has_destructor
            && has_candidate_method(ctx, functions, &owner) {
            assert(rendered_constructor(ctx@, fs, fs[k as int]));
            if !constructor_item_renderable(ctx, f) {
                assert(!facade_ok(ctx@, fs));
                return false;
            }
        } else {
            assert(!rendered_constructor(ctx@, fs, fs[k as int]));
        }
        k = k + 1;
    }
    true
}

} // verus!
