//! How the Go facade passes arguments to the C ABI: the setup, deferred and post-call
//! lines and the argument expressions of each parameter.
use vstd::prelude::*;

use crate::case::{go_export, go_export_name};
use crate::context::{first_projection, PipelineContext, PipelineContextV};
use crate::gotypes::{
    go_value, cgo_prim, extern_struct_go, go_model_return_type, go_type_ref, model_go_name, or_else,
    type_key,
};
use crate::ir::{opt_view, params_view, strs, IrParam, IrParamV, IrType, IrTypeV};
use crate::kind::IrTypeKind;
use crate::projection::ModelProjectionV;
use crate::text::{decimal, join, push_str, push_string, views};
use crate::types::{base_model, parse_array};

verus! {

/// The known projection of a C++ model type.
pub open spec fn proj_of(ctx: PipelineContextV, cpp: Seq<char>) -> Option<ModelProjectionV> {
    match first_projection(ctx.known_model_projections, cpp, 0) {
        Some(k) => Some(ctx.known_model_projections[k]),
        None => None,
    }
}

/// The cgo conversion of a primitive type, from its C++ or else its C spelling.
pub open spec fn cgo_cast(t: IrTypeV) -> Option<Seq<char>> {
    or_else(cgo_prim(type_key(t.cpp_type)), cgo_prim(type_key(t.c_type)))
}

pub fn cgo_cast_type(ty: &IrType) -> (r: &'static str)
    requires
        cgo_cast(ty@) is Some,
    ensures
        r@ == cgo_cast(ty@)->0,
{
    match crate::gotypes::primitive_cgo_cast_type(ty.cpp_type.as_str()) {
        Some(c) => c,
        None => match crate::gotypes::primitive_cgo_cast_type(ty.c_type.as_str()) {
            Some(c) => c,
            None => "C.int",
        },
    }
}

/// The cgo element type of a primitive fixed array (`C.int32_t` when unknown).
pub open spec fn array_cgo_elem(t: IrTypeV) -> Seq<char> {
    let from_elem = match parse_array(t.cpp_type) {
        Some((e, _)) => cgo_prim(type_key(e)),
        None => None,
    };
    match or_else(from_elem, cgo_prim(type_key(crate::gotypes::array_c_elem(t)))) {
        Some(g) => g,
        None => "C.int32_t"@,
    }
}

pub fn fixed_array_cgo_elem_type(ty: &IrType) -> (r: &'static str)
    ensures
        r@ == array_cgo_elem(ty@),
{
    let from_elem = match crate::types::fixed_array_elem_type(ty.cpp_type.as_str()) {
        Some(e) => crate::gotypes::primitive_cgo_cast_type(e.as_str()),
        None => None,
    };
    match from_elem {
        Some(g) => g,
        None => {
            let c = crate::text::chars_of(ty.c_type.as_str());
            let t = crate::text::trim_vec(c.as_slice());
            let u = crate::text::trim_end_char_vec(t.as_slice(), '*');
            let e = crate::text::trim_vec(u.as_slice());
            let s = crate::text::string_of(e.as_slice());
            match crate::gotypes::primitive_cgo_cast_type(s.as_str()) {
                Some(g) => g,
                None => "C.int32_t",
            }
        },
    }
}

/// The length of a fixed array type, as the generator reads it (0 when not an array).
pub open spec fn array_len_of(cpp: Seq<char>) -> nat {
    match parse_array(cpp) {
        Some((_, n)) => (n as usize) as nat,
        None => 0,
    }
}

pub fn array_length_or_zero(cpp_type: &str) -> (r: usize)
    ensures
        r as nat == array_len_of(cpp_type@),
{
    match crate::types::fixed_array_length(cpp_type) {
        Some(n) => n,
        None => 0,
    }
}

fn decimal_string(n: usize) -> (r: String)
    ensures
        r@ == decimal(n as nat),
{
    let d = crate::text::decimal_vec(n);
    crate::text::string_of(d.as_slice())
}

/// Whether the C symbol expects another handle type than the projection stores.
pub open spec fn handle_cast_needed(ctx: PipelineContextV, cpp: Seq<char>, handle: Option<Seq<char>>) -> bool {
    match proj_of(ctx, cpp) {
        Some(p) => match handle {
            Some(h) => h != p.handle_name,
            None => false,
        },
        None => false,
    }
}

fn projection_handle(ctx: &PipelineContext, cpp: &str) -> (r: Option<String>)
    ensures
        match proj_of(ctx@, cpp@) {
            Some(p) => r is Some && r->0@ == p.handle_name,
            None => r is None,
        },
{
    proof {
        crate::context::lemma_first_projection_bounds(ctx@.known_model_projections, cpp@, 0);
    }
    match ctx.known_model_projection(cpp) {
        Some(p) => Some(p.handle_name.clone()),
        None => None,
    }
}

fn cast_needed(ctx: &PipelineContext, cpp: &str, handle: &Option<String>) -> (b: bool)
    ensures
        b == handle_cast_needed(ctx@, cpp@, opt_view(*handle)),
{
    match projection_handle(ctx, cpp) {
        Some(ph) => match handle {
            Some(h) => !crate::text::str_eq(h.as_str(), ph.as_str()),
            None => false,
        },
        None => false,
    }
}

/// A model pointer handed to C: cast through `unsafe.Pointer` where the handle differs.
pub open spec fn model_ptr_expr(ctx: PipelineContextV, t: IrTypeV, raw: Seq<char>) -> Seq<char> {
    if handle_cast_needed(ctx, t.cpp_type, t.handle) {
        "(*C."@ + t.handle->0 + ")(unsafe.Pointer("@ + raw + "))"@
    } else {
        raw
    }
}

pub fn render_model_ptr_expr(ctx: &PipelineContext, ty: &IrType, raw_expr: &str) -> (r: String)
    ensures
        r@ == model_ptr_expr(ctx@, ty@, raw_expr@),
{
    if cast_needed(ctx, ty.cpp_type.as_str(), &ty.handle) {
        let mut out = String::from_str("(*C.");
        match &ty.handle {
            Some(h) => push_string(&mut out, h),
            None => {},
        }
        push_str(&mut out, ")(unsafe.Pointer(");
        push_str(&mut out, raw_expr);
        push_str(&mut out, "))");
        out
    } else {
        String::from_str(raw_expr)
    }
}

/// A returned raw pointer cast to the projection's handle where the handle differs (the
/// text is emitted exactly so, parentheses included).
pub open spec fn cast_raw(ctx: PipelineContextV, t: IrTypeV, raw: Seq<char>) -> Seq<char> {
    if handle_cast_needed(ctx, t.cpp_type, t.handle) {
        "(*C."@ + proj_of(ctx, t.cpp_type)->0.handle_name + ")unsafe.Pointer("@ + raw + "))"@
    } else {
        raw
    }
}

pub fn cast_raw_to_projection_handle(ctx: &PipelineContext, ret: &IrType, raw_expr: &str) -> (r: String)
    ensures
        r@ == cast_raw(ctx@, ret@, raw_expr@),
{
    if cast_needed(ctx, ret.cpp_type.as_str(), &ret.handle) {
        let mut out = String::from_str("(*C.");
        match projection_handle(ctx, ret.cpp_type.as_str()) {
            Some(ph) => push_string(&mut out, &ph),
            None => {},
        }
        push_str(&mut out, ")unsafe.Pointer(");
        push_str(&mut out, raw_expr);
        push_str(&mut out, "))");
        out
    } else {
        String::from_str(raw_expr)
    }
}

/// An element of a model array handed to C, cast where its handle differs.
pub open spec fn elem_ptr_expr(ctx: PipelineContextV, elem: Seq<char>, expected: Seq<char>, raw: Seq<char>) -> Seq<
    char,
> {
    match proj_of(ctx, elem) {
        Some(p) => if expected != p.handle_name {
            "(*C."@ + expected + ")(unsafe.Pointer("@ + raw + "))"@
        } else {
            raw
        },
        None => raw,
    }
}

fn render_fixed_model_array_elem_ptr_expr(
    ctx: &PipelineContext,
    elem_cpp: &str,
    expected_handle: &str,
    raw_expr: &str,
) -> (r: String)
    ensures
        r@ == elem_ptr_expr(ctx@, elem_cpp@, expected_handle@, raw_expr@),
{
    match projection_handle(ctx, elem_cpp) {
        Some(ph) => {
            if !crate::text::str_eq(expected_handle, ph.as_str()) {
                let mut out = String::from_str("(*C.");
                push_str(&mut out, expected_handle);
                push_str(&mut out, ")(unsafe.Pointer(");
                push_str(&mut out, raw_expr);
                push_str(&mut out, "))");
                out
            } else {
                String::from_str(raw_expr)
            }
        },
        None => String::from_str(raw_expr),
    }
}

/// Whether a model wrapper of this type tracks its owner's lifetime (a `root`).
pub open spec fn has_root(
    ctx: PipelineContextV,
    cpp: Seq<char>,
    handle: Option<Seq<char>>,
    covered: Seq<Seq<char>>,
    owned: Seq<Seq<char>>,
) -> bool {
    proj_of(ctx, cpp) is Some || match handle {
        Some(h) => covered.contains(h) || owned.contains(h),
        None => false,
    }
}

pub fn model_handle_has_root(
    ctx: &PipelineContext,
    cpp_type: &str,
    handle: &Option<String>,
    covered_handles: &Vec<String>,
    owned_opaque_value_handles: &Vec<String>,
) -> (b: bool)
    ensures
        b == has_root(ctx@, cpp_type@, opt_view(*handle), strs(covered_handles@), strs(owned_opaque_value_handles@)),
{
    match projection_handle(ctx, cpp_type) {
        Some(_) => true,
        None => match handle {
            Some(h) => crate::ir::contains_str(covered_handles, crate::text::chars_of(h.as_str()).as_slice())
                || crate::ir::contains_str(
                owned_opaque_value_handles,
                crate::text::chars_of(h.as_str()).as_slice(),
            ),
            None => false,
        },
    }
}

/// The lines that check a model argument and take its C pointer into `c_name`: a pointer
/// may be nil, anything else must not; a wrapper with a root must not be closed.
pub open spec fn handle_setup(
    ctx: PipelineContextV,
    t: IrTypeV,
    name: Seq<char>,
    c_name: Seq<char>,
    covered: Seq<Seq<char>>,
    owned: Seq<Seq<char>>,
) -> Seq<Seq<char>> {
    let handle = match t.handle {
        Some(h) => h,
        None => "void"@,
    };
    let go_name = model_go_name(ctx, t);
    let ptr = model_ptr_expr(ctx, t, name + ".ptr"@);
    let rooted = has_root(ctx, t.cpp_type, t.handle, covered, owned);
    let head = seq!["var "@ + c_name + " *C."@ + handle];
    if t.kind == IrTypeKind::ModelPointer {
        head + seq!["if "@ + name + " != nil {"@] + (if rooted {
            seq![
                "    if "@ + name + ".root != nil && *"@ + name + ".root {"@,
                "        panic(\""@ + go_name + " handle is closed\")"@,
                "    }"@,
            ]
        } else {
            seq![]
        }) + seq!["    "@ + c_name + " = "@ + ptr, "}"@]
    } else {
        head + seq![
            "if "@ + name + " == nil || "@ + name + ".ptr == nil {"@,
            "    panic(\""@ + go_name + " handle is required but nil\")"@,
            "}"@,
        ] + (if rooted {
            seq![
                "if "@ + name + ".root != nil && *"@ + name + ".root {"@,
                "    panic(\""@ + go_name + " handle is closed\")"@,
                "}"@,
            ]
        } else {
            seq![]
        }) + seq![c_name + " = "@ + ptr]
    }
}

pub fn cat2(a: &str, b: &str) -> (r: String)
    ensures
        r@ == a@ + b@,
{
    let mut out = String::from_str(a);
    push_str(&mut out, b);
    out
}

pub fn cat3(a: &str, b: &str, c: &str) -> (r: String)
    ensures
        r@ == a@ + b@ + c@,
{
    let mut out = String::from_str(a);
    push_str(&mut out, b);
    push_str(&mut out, c);
    out
}

pub fn cat4(a: &str, b: &str, c: &str, d: &str) -> (r: String)
    ensures
        r@ == a@ + b@ + c@ + d@,
{
    let mut out = cat3(a, b, c);
    push_str(&mut out, d);
    out
}

pub fn cat5(a: &str, b: &str, c: &str, d: &str, e: &str) -> (r: String)
    ensures
        r@ == a@ + b@ + c@ + d@ + e@,
{
    let mut out = cat4(a, b, c, d);
    push_str(&mut out, e);
    out
}

pub fn cat6(a: &str, b: &str, c: &str, d: &str, e: &str, f: &str) -> (r: String)
    ensures
        r@ == a@ + b@ + c@ + d@ + e@ + f@,
{
    let mut out = cat5(a, b, c, d, e);
    push_str(&mut out, f);
    out
}

pub fn cat7(a: &str, b: &str, c: &str, d: &str, e: &str, f: &str, g: &str) -> (r: String)
    ensures
        r@ == a@ + b@ + c@ + d@ + e@ + f@ + g@,
{
    let mut out = cat6(a, b, c, d, e, f);
    push_str(&mut out, g);
    out
}

pub fn push_line(lines: &mut Vec<String>, s: String)
    ensures
        views(final(lines)@) == views(old(lines)@).push(s@),
{
    let ghost before = views(lines@);
    lines.push(s);
    assert(views(lines@) =~= before.push(s@));
}

pub fn render_model_handle_setup(
    ctx: &PipelineContext,
    ty: &IrType,
    name: &str,
    c_name: &str,
    covered_handles: &Vec<String>,
    owned_opaque_value_handles: &Vec<String>,
) -> (r: Vec<String>)
    ensures
        views(r@) == handle_setup(ctx@, ty@, name@, c_name@, strs(covered_handles@), strs(owned_opaque_value_handles@)),
{
    let handle = match &ty.handle {
        Some(h) => h.clone(),
        None => String::from_str("void"),
    };
    let go_name = go_model_return_type(ctx, ty);
    let mut raw = String::from_str(name);
    push_str(&mut raw, ".ptr");
    let ptr = render_model_ptr_expr(ctx, ty, raw.as_str());
    let rooted = model_handle_has_root(ctx, ty.cpp_type.as_str(), &ty.handle, covered_handles, owned_opaque_value_handles);
    let mut lines: Vec<String> = Vec::new();
    push_line(&mut lines, cat4("var ", c_name, " *C.", handle.as_str()));
    if ty.kind == IrTypeKind::ModelPointer {
        push_line(&mut lines, cat3("if ", name, " != nil {"));
        if rooted {
            push_line(&mut lines, cat5("    if ", name, ".root != nil && *", name, ".root {"));
            push_line(&mut lines, cat3("        panic(\"", go_name.as_str(), " handle is closed\")"));
            push_line(&mut lines, String::from_str("    }"));
        }
        push_line(&mut lines, cat4("    ", c_name, " = ", ptr.as_str()));
        push_line(&mut lines, String::from_str("}"));
    } else {
        push_line(&mut lines, cat5("if ", name, " == nil || ", name, ".ptr == nil {"));
        push_line(&mut lines, cat3("    panic(\"", go_name.as_str(), " handle is required but nil\")"));
        push_line(&mut lines, String::from_str("}"));
        if rooted {
            push_line(&mut lines, cat5("if ", name, ".root != nil && *", name, ".root {"));
            push_line(&mut lines, cat3("    panic(\"", go_name.as_str(), " handle is closed\")"));
            push_line(&mut lines, String::from_str("}"));
        }
        push_line(&mut lines, cat3(c_name, " = ", ptr.as_str()));
    }
    lines
}

/// What one call needs before and after it: setup lines, deferred lines, lines after the
/// call, and the C argument expressions.
pub struct RenderedCallPrep {
    pub setup_lines: Vec<String>,
    pub defer_lines: Vec<String>,
    pub post_call_lines: Vec<String>,
    pub args: Vec<String>,
}

pub struct PrepV {
    pub setup: Seq<Seq<char>>,
    pub defers: Seq<Seq<char>>,
    pub posts: Seq<Seq<char>>,
    pub args: Seq<Seq<char>>,
}

impl View for RenderedCallPrep {
    type V = PrepV;

    open spec fn view(&self) -> PrepV {
        PrepV {
            setup: views(self.setup_lines@),
            defers: views(self.defer_lines@),
            posts: views(self.post_call_lines@),
            args: views(self.args@),
        }
    }
}

pub open spec fn prep_cat(a: PrepV, b: PrepV) -> PrepV {
    PrepV { setup: a.setup + b.setup, defers: a.defers + b.defers, posts: a.posts + b.posts, args: a.args + b.args }
}

pub open spec fn prep_empty() -> PrepV {
    PrepV { setup: seq![], defers: seq![], posts: seq![], args: seq![] }
}

/// The length check of a fixed-size array argument.
pub open spec fn length_guard(name: Seq<char>, t: IrTypeV) -> Seq<Seq<char>> {
    match parse_array(t.cpp_type) {
        Some((_, n)) => seq![
            "if len("@ + name + ") != "@ + decimal((n as usize) as nat) + " {"@,
            "    panic(\""@ + name + " requires "@ + decimal((n as usize) as nat) + " elements\")"@,
            "}"@,
        ],
        None => seq![],
    }
}

pub fn render_fixed_length_guard(name: &str, ty: &IrType) -> (r: Vec<String>)
    ensures
        views(r@) == length_guard(name@, ty@),
{
    let mut lines: Vec<String> = Vec::new();
    match crate::types::fixed_array_length(ty.cpp_type.as_str()) {
        Some(n) => {
            let d = decimal_string(n);
            push_line(&mut lines, cat5("if len(", name, ") != ", d.as_str(), " {"));
            push_line(&mut lines, cat5("    panic(\"", name, " requires ", d.as_str(), " elements\")"));
            push_line(&mut lines, String::from_str("}"));
        },
        None => {},
    }
    lines
}

/// The cgo type a raw pointer argument is cast to.
pub open spec fn pointer_cgo(t: IrTypeV) -> Seq<char> {
    match or_else(
        cgo_prim(type_key(crate::text::trim(crate::text::trim_end_char(t.cpp_type, '*')))),
        cgo_prim(type_key(crate::text::trim(crate::text::trim_end_char(t.c_type, '*')))),
    ) {
        Some(c) => c,
        None => "C.int"@,
    }
}

pub open spec fn arg_name(i: nat) -> Seq<char> {
    "cArg"@ + decimal(i)
}

pub open spec fn nil_reference_check(name: Seq<char>) -> Seq<Seq<char>> {
    seq!["if "@ + name + " == nil {"@, "    panic(\""@ + name + " reference is nil\")"@, "}"@]
}

/// What the call needs for a fixed array of models: a C array of their handles.
pub open spec fn model_array_setup(
    ctx: PipelineContextV,
    t: IrTypeV,
    name: Seq<char>,
    i: nat,
    covered: Seq<Seq<char>>,
    owned: Seq<Seq<char>>,
) -> Seq<Seq<char>> {
    let ch = match t.handle {
        Some(h) => h,
        None => seq![],
    };
    let elem = match parse_array(t.cpp_type) {
        Some((e, _)) => e,
        None => seq![],
    };
    let go_name = model_go_name(ctx, t);
    let hs = "cHandles"@ + decimal(i);
    length_guard(name, t) + seq![
        hs + " := make([]*C."@ + ch + ", len("@ + name + "))"@,
        "for _i, _v := range "@ + name + " {"@,
        "    if _v == nil || _v.ptr == nil {"@,
        "        panic(\""@ + go_name + " handle is required but nil\")"@,
        "    }"@,
    ] + (if has_root(ctx, elem, t.handle, covered, owned) {
        seq![
            "    if _v.root != nil && *_v.root {"@,
            "        panic(\""@ + go_name + " handle is closed\")"@,
            "    }"@,
        ]
    } else {
        seq![]
    }) + seq![
        "    "@ + hs + "[_i] = "@ + elem_ptr_expr(ctx, elem, ch, "_v.ptr"@),
        "}"@,
        arg_name(i) + " := (**C."@ + ch + ")(unsafe.Pointer(&"@ + hs + "[0]))"@,
    ]
}

/// Which parameters the call preparation can render (the others stop the generator).
pub open spec fn param_renderable(t: IrTypeV) -> bool {
    match t.kind {
        IrTypeKind::String | IrTypeKind::CString | IrTypeKind::FixedByteArray | IrTypeKind::FixedArray
        | IrTypeKind::FixedModelArray | IrTypeKind::Pointer | IrTypeKind::ModelReference
        | IrTypeKind::ModelPointer | IrTypeKind::ModelValue => true,
        IrTypeKind::Reference => go_type_ref(t) is Some && cgo_cast(t) is Some,
        IrTypeKind::ExternStructReference | IrTypeKind::ExternStructPointer => extern_struct_go(t) is Some,
        _ => cgo_cast(t) is Some,
    }
}

pub open spec fn c_arg(t: IrTypeV, name: Seq<char>) -> Seq<char> {
    cgo_cast(t)->0 + "("@ + name + ")"@
}

/// What parameter `i` (its position among the rendered parameters) adds to the call.
pub open spec fn param_prep(
    ctx: PipelineContextV,
    p: IrParamV,
    i: nat,
    covered: Seq<Seq<char>>,
    owned: Seq<Seq<char>>,
) -> PrepV {
    let t = p.ty;
    let name = p.name;
    let c = arg_name(i);
    match t.kind {
        IrTypeKind::String | IrTypeKind::CString => PrepV {
            setup: seq![c + " := C.CString("@ + name + ")"@],
            defers: seq!["defer C.free(unsafe.Pointer("@ + c + "))"@],
            posts: seq![],
            args: seq![c],
        },
        IrTypeKind::FixedByteArray => PrepV {
            setup: length_guard(name, t) + seq![c + " := (*C.uint8_t)(unsafe.Pointer(&"@ + name + "[0]))"@],
            defers: seq![],
            posts: seq![],
            args: seq![c],
        },
        IrTypeKind::FixedArray => PrepV {
            setup: length_guard(name, t) + seq![
                c + " := (*"@ + array_cgo_elem(t) + ")(unsafe.Pointer(&"@ + name + "[0]))"@,
            ],
            defers: seq![],
            posts: seq![],
            args: seq![c],
        },
        IrTypeKind::FixedModelArray => PrepV {
            setup: model_array_setup(ctx, t, name, i, covered, owned),
            defers: seq![],
            posts: seq![],
            args: seq![c],
        },
        IrTypeKind::Reference => PrepV {
            setup: nil_reference_check(name) + seq![c + " := "@ + cgo_cast(t)->0 + "(*"@ + name + ")"@],
            defers: seq![],
            posts: seq!["*"@ + name + " = "@ + go_type_ref(t)->0 + "("@ + c + ")"@],
            args: seq!["&"@ + c],
        },
        IrTypeKind::Pointer => PrepV {
            setup: seq![c + " := (*"@ + pointer_cgo(t) + ")(unsafe.Pointer("@ + name + "))"@],
            defers: seq![],
            posts: seq![],
            args: seq![c],
        },
        IrTypeKind::ExternStructReference => PrepV {
            setup: nil_reference_check(name) + seq![
                c + " := ("@ + extern_struct_go(t)->0 + ")(unsafe.Pointer("@ + name + "))"@,
            ],
            defers: seq![],
            posts: seq![],
            args: seq![c],
        },
        IrTypeKind::ExternStructPointer => PrepV {
            setup: seq![c + " := ("@ + extern_struct_go(t)->0 + ")(unsafe.Pointer("@ + name + "))"@],
            defers: seq![],
            posts: seq![],
            args: seq![c],
        },
        IrTypeKind::ModelReference | IrTypeKind::ModelPointer | IrTypeKind::ModelValue => {
            if base_model(t.cpp_type) == "void"@ {
                let h = match t.handle {
                    Some(h) => h,
                    None => "void"@,
                };
                PrepV {
                    setup: seq![
                        "var "@ + c + " *C."@ + h,
                        "if "@ + name + " != nil {"@,
                        "    "@ + c + " = (*C."@ + h + ")("@ + name + ")"@,
                        "}"@,
                    ],
                    defers: seq![],
                    posts: seq![],
                    args: seq![c],
                }
            } else {
                PrepV {
                    setup: handle_setup(ctx, t, name, c, covered, owned),
                    defers: seq![],
                    posts: seq![],
                    args: seq![c],
                }
            }
        },
        _ => PrepV { setup: seq![], defers: seq![], posts: seq![], args: seq![c_arg(t, name)] },
    }
}

pub open spec fn prep_of(
    ctx: PipelineContextV,
    ps: Seq<IrParamV>,
    covered: Seq<Seq<char>>,
    owned: Seq<Seq<char>>,
) -> PrepV
    decreases ps.len(),
{
    if ps.len() == 0 {
        prep_empty()
    } else {
        prep_cat(prep_of(ctx, ps.drop_last(), covered, owned), param_prep(ctx, ps.last(), (ps.len() - 1) as nat, covered, owned))
    }
}

pub open spec fn params_renderable(ps: Seq<IrParamV>) -> bool {
    forall|k: int| 0 <= k < ps.len() ==> #[trigger] param_renderable(ps[k].ty)
}

fn append_lines(dst: &mut Vec<String>, src: Vec<String>)
    ensures
        views(final(dst)@) == views(old(dst)@) + views(src@),
{
    let ghost start = views(dst@);
    let mut i: usize = 0;
    while i < src.len()
        invariant
            i <= src.len(),
            views(dst@) =~= start + views(src@).take(i as int),
        decreases src.len() - i,
    {
        push_line(dst, src[i].clone());
        i = i + 1;
    }
    assert(views(src@).take(i as int) =~= views(src@));
}

fn model_array_lines(
    ctx: &PipelineContext,
    ty: &IrType,
    name: &str,
    index: usize,
    covered_handles: &Vec<String>,
    owned_opaque_value_handles: &Vec<String>,
) -> (r: Vec<String>)
    ensures
        views(r@) == model_array_setup(ctx@, ty@, name@, index as nat, strs(covered_handles@), strs(owned_opaque_value_handles@)),
{
    let ch = match &ty.handle {
        Some(h) => h.clone(),
        None => String::new(),
    };
    let elem = match crate::types::fixed_array_elem_type(ty.cpp_type.as_str()) {
        Some(e) => e,
        None => String::new(),
    };
    let go_name = go_model_return_type(ctx, ty);
    let d = decimal_string(index);
    let hs = cat2("cHandles", d.as_str());
    let c = cat2("cArg", d.as_str());
    let elem_expr = render_fixed_model_array_elem_ptr_expr(ctx, elem.as_str(), ch.as_str(), "_v.ptr");
    let rooted = model_handle_has_root(ctx, elem.as_str(), &ty.handle, covered_handles, owned_opaque_value_handles);
    let mut lines = render_fixed_length_guard(name, ty);
    push_line(&mut lines, cat6(hs.as_str(), " := make([]*C.", ch.as_str(), ", len(", name, "))"));
    push_line(&mut lines, cat3("for _i, _v := range ", name, " {"));
    push_line(&mut lines, String::from_str("    if _v == nil || _v.ptr == nil {"));
    push_line(&mut lines, cat3("        panic(\"", go_name.as_str(), " handle is required but nil\")"));
    push_line(&mut lines, String::from_str("    }"));
    if rooted {
        push_line(&mut lines, String::from_str("    if _v.root != nil && *_v.root {"));
        push_line(&mut lines, cat3("        panic(\"", go_name.as_str(), " handle is closed\")"));
        push_line(&mut lines, String::from_str("    }"));
    }
    push_line(&mut lines, cat4("    ", hs.as_str(), "[_i] = ", elem_expr.as_str()));
    push_line(&mut lines, String::from_str("}"));
    push_line(&mut lines, cat6(c.as_str(), " := (**C.", ch.as_str(), ")(unsafe.Pointer(&", hs.as_str(), "[0]))"));
    lines
}

fn pointer_cgo_type(ty: &IrType) -> (r: &'static str)
    ensures
        r@ == pointer_cgo(ty@),
{
    let cpp = crate::text::chars_of(ty.cpp_type.as_str());
    let a = crate::text::trim_end_char_vec(cpp.as_slice(), '*');
    let b = crate::text::trim_vec(a.as_slice());
    match crate::gotypes::primitive_cgo_cast_type(crate::text::string_of(b.as_slice()).as_str()) {
        Some(c) => c,
        None => {
            let cv = crate::text::chars_of(ty.c_type.as_str());
            let d = crate::text::trim_end_char_vec(cv.as_slice(), '*');
            let e = crate::text::trim_vec(d.as_slice());
            match crate::gotypes::primitive_cgo_cast_type(crate::text::string_of(e.as_slice()).as_str()) {
                Some(c) => c,
                None => "C.int",
            }
        },
    }
}

fn nil_check_lines(lines: &mut Vec<String>, name: &str)
    ensures
        views(final(lines)@) == views(old(lines)@) + nil_reference_check(name@),
{
    let ghost start = views(lines@);
    push_line(lines, cat3("if ", name, " == nil {"));
    push_line(lines, cat3("    panic(\"", name, " reference is nil\")"));
    push_line(lines, String::from_str("}"));
    assert(views(lines@) =~= start + nil_reference_check(name@));
}

fn param_prep_exec(
    ctx: &PipelineContext,
    p: &IrParam,
    index: usize,
    covered_handles: &Vec<String>,
    owned_opaque_value_handles: &Vec<String>,
) -> (r: RenderedCallPrep)
    requires
        param_renderable(p@.ty),
    ensures
        r@ == param_prep(ctx@, p@, index as nat, strs(covered_handles@), strs(owned_opaque_value_handles@)),
{
    let ty = &p.ty;
    let name = p.name.as_str();
    let d = decimal_string(index);
    let c = cat2("cArg", d.as_str());
    let mut setup: Vec<String> = Vec::new();
    let mut defers: Vec<String> = Vec::new();
    let mut posts: Vec<String> = Vec::new();
    let mut args: Vec<String> = Vec::new();
    assert(views(setup@) =~= Seq::<Seq<char>>::empty());
    assert(views(defers@) =~= Seq::<Seq<char>>::empty());
    assert(views(posts@) =~= Seq::<Seq<char>>::empty());
    assert(views(args@) =~= Seq::<Seq<char>>::empty());
    match ty.kind {
        IrTypeKind::String | IrTypeKind::CString => {
            push_line(&mut setup, cat4(c.as_str(), " := C.CString(", name, ")"));
            push_line(&mut defers, cat3("defer C.free(unsafe.Pointer(", c.as_str(), "))"));
            assert(views(setup@) == param_prep(ctx@, p@, index as nat, strs(covered_handles@), strs(owned_opaque_value_handles@)).setup);
            push_line(&mut args, c);
        },
        IrTypeKind::FixedByteArray => {
            setup = render_fixed_length_guard(name, ty);
            push_line(&mut setup, cat4(c.as_str(), " := (*C.uint8_t)(unsafe.Pointer(&", name, "[0]))"));
            assert(views(setup@) == param_prep(ctx@, p@, index as nat, strs(covered_handles@), strs(owned_opaque_value_handles@)).setup);
            push_line(&mut args, c);
        },
        IrTypeKind::FixedArray => {
            setup = render_fixed_length_guard(name, ty);
            push_line(&mut setup, cat6(c.as_str(), " := (*", fixed_array_cgo_elem_type(ty), ")(unsafe.Pointer(&", name, "[0]))"));
            assert(views(setup@) == param_prep(ctx@, p@, index as nat, strs(covered_handles@), strs(owned_opaque_value_handles@)).setup);
            push_line(&mut args, c);
        },
        IrTypeKind::FixedModelArray => {
            setup = model_array_lines(ctx, ty, name, index, covered_handles, owned_opaque_value_handles);
            assert(views(setup@) == param_prep(ctx@, p@, index as nat, strs(covered_handles@), strs(owned_opaque_value_handles@)).setup);
            push_line(&mut args, c);
        },
        IrTypeKind::Reference => {
            nil_check_lines(&mut setup, name);
            push_line(&mut setup, cat6(c.as_str(), " := ", cgo_cast_type(ty), "(*", name, ")"));
            let g = match crate::gotypes::go_type_for_reference(ty) {
                Some(g) => g,
                None => "",
            };
            push_line(&mut posts, cat7("*", name, " = ", g, "(", c.as_str(), ")"));
            assert(views(setup@) == param_prep(ctx@, p@, index as nat, strs(covered_handles@), strs(owned_opaque_value_handles@)).setup);
            push_line(&mut args, cat2("&", c.as_str()));
        },
        IrTypeKind::Pointer => {
            push_line(&mut setup, cat6(c.as_str(), " := (*", pointer_cgo_type(ty), ")(unsafe.Pointer(", name, "))"));
            assert(views(setup@) == param_prep(ctx@, p@, index as nat, strs(covered_handles@), strs(owned_opaque_value_handles@)).setup);
            push_line(&mut args, c);
        },
        IrTypeKind::ExternStructReference => {
            nil_check_lines(&mut setup, name);
            let g = match crate::gotypes::extern_struct_go_type(ty) {
                Some(g) => g,
                None => String::new(),
            };
            push_line(&mut setup, cat6(c.as_str(), " := (", g.as_str(), ")(unsafe.Pointer(", name, "))"));
            assert(views(setup@) == param_prep(ctx@, p@, index as nat, strs(covered_handles@), strs(owned_opaque_value_handles@)).setup);
            push_line(&mut args, c);
        },
        IrTypeKind::ExternStructPointer => {
            let g = match crate::gotypes::extern_struct_go_type(ty) {
                Some(g) => g,
                None => String::new(),
            };
            push_line(&mut setup, cat6(c.as_str(), " := (", g.as_str(), ")(unsafe.Pointer(", name, "))"));
            assert(views(setup@) == param_prep(ctx@, p@, index as nat, strs(covered_handles@), strs(owned_opaque_value_handles@)).setup);
            push_line(&mut args, c);
        },
        IrTypeKind::ModelReference | IrTypeKind::ModelPointer | IrTypeKind::ModelValue => {
            let base = crate::types::base_model_cpp_type(ty.cpp_type.as_str());
            if crate::text::str_eq(base.as_str(), "void") {
                let h = match &ty.handle {
                    Some(h) => h.clone(),
                    None => String::from_str("void"),
                };
                push_line(&mut setup, cat4("var ", c.as_str(), " *C.", h.as_str()));
                push_line(&mut setup, cat3("if ", name, " != nil {"));
                push_line(&mut setup, cat7("    ", c.as_str(), " = (*C.", h.as_str(), ")(", name, ")"));
                push_line(&mut setup, String::from_str("}"));
            } else {
                setup = render_model_handle_setup(ctx, ty, name, c.as_str(), covered_handles, owned_opaque_value_handles);
            }
            assert(views(setup@) == param_prep(ctx@, p@, index as nat, strs(covered_handles@), strs(owned_opaque_value_handles@)).setup);
            push_line(&mut args, c);
        },
        _ => {
            assert(views(setup@) == param_prep(ctx@, p@, index as nat, strs(covered_handles@), strs(owned_opaque_value_handles@)).setup);
            push_line(&mut args, cat4(cgo_cast_type(ty), "(", name, ")"));
        },
    }
    RenderedCallPrep { setup_lines: setup, defer_lines: defers, post_call_lines: posts, args }
}

/// The call preparation of `params` from position `from` on.
pub fn render_call_prep(
    ctx: &PipelineContext,
    params: &Vec<IrParam>,
    from: usize,
    covered_handles: &Vec<String>,
    owned_opaque_value_handles: &Vec<String>,
) -> (r: RenderedCallPrep)
    requires
        from <= params.len(),
        params_renderable(params_view(params@).skip(from as int)),
    ensures
        r@ == prep_of(ctx@, params_view(params@).skip(from as int), strs(covered_handles@), strs(owned_opaque_value_handles@)),
{
    let ghost ps = params_view(params@).skip(from as int);
    let ghost cov = strs(covered_handles@);
    let ghost own = strs(owned_opaque_value_handles@);
    let mut prep = RenderedCallPrep {
        setup_lines: Vec::new(),
        defer_lines: Vec::new(),
        post_call_lines: Vec::new(),
        args: Vec::new(),
    };
    let mut i: usize = from;
    assert(ps.take(0) =~= Seq::<IrParamV>::empty());
    assert(prep@ == prep_of(ctx@, ps.take(0), cov, own)) by {
        assert(views(prep.setup_lines@) =~= Seq::<Seq<char>>::empty());
        assert(views(prep.defer_lines@) =~= Seq::<Seq<char>>::empty());
        assert(views(prep.post_call_lines@) =~= Seq::<Seq<char>>::empty());
        assert(views(prep.args@) =~= Seq::<Seq<char>>::empty());
    }
    while i < params.len()
        invariant
            from <= i <= params.len(),
            ps == params_view(params@).skip(from as int),
            cov == strs(covered_handles@),
            own == strs(owned_opaque_value_handles@),
            params_renderable(ps),
            prep@ == prep_of(ctx@, ps.take(i - from), cov, own),
        decreases params.len() - i,
    {
        assert(ps.take(i + 1 - from).drop_last() =~= ps.take(i - from));
        assert(ps.take(i + 1 - from).last() == params@[i as int]@);
        assert(ps[i - from] == params@[i as int]@);
        let part = param_prep_exec(ctx, &params[i], i - from, covered_handles, owned_opaque_value_handles);
        let RenderedCallPrep { setup_lines, defer_lines, post_call_lines, args } = part;
        append_lines(&mut prep.setup_lines, setup_lines);
        append_lines(&mut prep.defer_lines, defer_lines);
        append_lines(&mut prep.post_call_lines, post_call_lines);
        append_lines(&mut prep.args, args);
        i = i + 1;
    }
    assert(ps.take(i - from) =~= ps);
    prep
}

/// The call preparation where callback parameters register the Go function in their slot
/// and pass whether one is set; `offset` is the position of the first rendered parameter
/// among the function's own.
pub open spec fn callback_param_prep(
    ctx: PipelineContextV,
    f: crate::ir::IrFunctionV,
    p: IrParamV,
    i: nat,
    offset: nat,
    covered: Seq<Seq<char>>,
    owned: Seq<Seq<char>>,
) -> PrepV {
    if p.ty.kind == IrTypeKind::Callback {
        let st = crate::facade::state_name(f, i + offset);
        PrepV {
            setup: seq![st + ".mu.Lock()"@, st + ".fn = "@ + p.name, st + ".mu.Unlock()"@],
            defers: seq![],
            posts: seq![],
            args: seq!["C.bool("@ + p.name + " != nil)"@],
        }
    } else {
        param_prep(ctx, p, i, covered, owned)
    }
}

pub open spec fn callback_prep_of(
    ctx: PipelineContextV,
    f: crate::ir::IrFunctionV,
    ps: Seq<IrParamV>,
    offset: nat,
    covered: Seq<Seq<char>>,
    owned: Seq<Seq<char>>,
) -> PrepV
    decreases ps.len(),
{
    if ps.len() == 0 {
        prep_empty()
    } else {
        prep_cat(
            callback_prep_of(ctx, f, ps.drop_last(), offset, covered, owned),
            callback_param_prep(ctx, f, ps.last(), (ps.len() - 1) as nat, offset, covered, owned),
        )
    }
}

pub open spec fn callback_params_renderable(ps: Seq<IrParamV>) -> bool {
    forall|k: int| 0 <= k < ps.len() ==> ps[k].ty.kind == IrTypeKind::Callback || #[trigger] param_renderable(ps[k].ty)
}

/// The call preparation of `params` from position `from` on, for a function that takes
/// callbacks; `offset` is the position of the first of them among the function's own.
pub fn callback_prep_over(
    ctx: &PipelineContext,
    function: &crate::ir::IrFunction,
    params: &Vec<IrParam>,
    from: usize,
    offset: usize,
    covered_handles: &Vec<String>,
    owned_opaque_value_handles: &Vec<String>,
) -> (r: RenderedCallPrep)
    requires
        from <= params.len(),
        params.len() - from + offset <= usize::MAX,
        callback_params_renderable(params_view(params@).skip(from as int)),
    ensures
        r@ == callback_prep_of(ctx@, function@, params_view(params@).skip(from as int), offset as nat, strs(covered_handles@), strs(owned_opaque_value_handles@)),
{
    let ghost ps = params_view(params@).skip(from as int);
    let ghost cov = strs(covered_handles@);
    let ghost own = strs(owned_opaque_value_handles@);
    let mut prep = RenderedCallPrep {
        setup_lines: Vec::new(),
        defer_lines: Vec::new(),
        post_call_lines: Vec::new(),
        args: Vec::new(),
    };
    let mut i: usize = from;
    assert(ps.take(0) =~= Seq::<IrParamV>::empty());
    assert(prep@ == callback_prep_of(ctx@, function@, ps.take(0), offset as nat, cov, own)) by {
        assert(views(prep.setup_lines@) =~= Seq::<Seq<char>>::empty());
        assert(views(prep.defer_lines@) =~= Seq::<Seq<char>>::empty());
        assert(views(prep.post_call_lines@) =~= Seq::<Seq<char>>::empty());
        assert(views(prep.args@) =~= Seq::<Seq<char>>::empty());
    }
    while i < params.len()
        invariant
            from <= i <= params.len(),
            params.len() - from + offset <= usize::MAX,
            ps == params_view(params@).skip(from as int),
            cov == strs(covered_handles@),
            own == strs(owned_opaque_value_handles@),
            callback_params_renderable(ps),
            prep@ == callback_prep_of(ctx@, function@, ps.take(i - from), offset as nat, cov, own),
        decreases params.len() - i,
    {
        assert(ps.take(i + 1 - from).drop_last() =~= ps.take(i - from));
        assert(ps.take(i + 1 - from).last() == params@[i as int]@);
        assert(ps[i - from] == params@[i as int]@);
        let p = &params[i];
        let part = if p.ty.kind == IrTypeKind::Callback {
            let st = crate::facade::callback_state_name_from_function(function, i - from + offset);
            let mut setup: Vec<String> = Vec::new();
            assert(views(setup@) =~= Seq::<Seq<char>>::empty());
            push_line(&mut setup, cat2(st.as_str(), ".mu.Lock()"));
            push_line(&mut setup, cat3(st.as_str(), ".fn = ", p.name.as_str()));
            push_line(&mut setup, cat2(st.as_str(), ".mu.Unlock()"));
            let mut args: Vec<String> = Vec::new();
            assert(views(args@) =~= Seq::<Seq<char>>::empty());
            push_line(&mut args, cat3("C.bool(", p.name.as_str(), " != nil)"));
            let r = RenderedCallPrep { setup_lines: setup, defer_lines: Vec::new(), post_call_lines: Vec::new(), args };
            assert(views(r.defer_lines@) =~= Seq::<Seq<char>>::empty());
            assert(views(r.post_call_lines@) =~= Seq::<Seq<char>>::empty());
            assert(p@.ty.kind == IrTypeKind::Callback);
            assert(((i - from) as nat + offset as nat) == (i - from + offset) as nat);
            assert(r@.setup == callback_param_prep(ctx@, function@, p@, (i - from) as nat, offset as nat, cov, own).setup);
            assert(r@.args == callback_param_prep(ctx@, function@, p@, (i - from) as nat, offset as nat, cov, own).args);
            r
        } else {
            let r = param_prep_exec(ctx, p, i - from, covered_handles, owned_opaque_value_handles);
            assert(r@ == callback_param_prep(ctx@, function@, p@, (i - from) as nat, offset as nat, cov, own));
            r
        };
        assert(part@ == callback_param_prep(ctx@, function@, params@[i as int]@, (i - from) as nat, offset as nat, cov, own));
        let RenderedCallPrep { setup_lines, defer_lines, post_call_lines, args } = part;
        append_lines(&mut prep.setup_lines, setup_lines);
        append_lines(&mut prep.defer_lines, defer_lines);
        append_lines(&mut prep.post_call_lines, post_call_lines);
        append_lines(&mut prep.args, args);
        i = i + 1;
    }
    assert(ps.take(i - from) =~= ps);
    prep
}

/// The call preparation of the parameters of `function` from position `from` on, for a
/// function that takes callbacks.
pub fn render_callback_call_prep(
    ctx: &PipelineContext,
    function: &crate::ir::IrFunction,
    from: usize,
    covered_handles: &Vec<String>,
    owned_opaque_value_handles: &Vec<String>,
) -> (r: RenderedCallPrep)
    requires
        from <= function.params.len(),
        callback_params_renderable(function@.params.skip(from as int)),
    ensures
        r@ == callback_prep_of(ctx@, function@, function@.params.skip(from as int), from as nat, strs(covered_handles@), strs(owned_opaque_value_handles@)),
{
    callback_prep_over(ctx, function, &function.params, from, from, covered_handles, owned_opaque_value_handles)
}

/// Each line indented by four spaces and ended.
pub open spec fn indented(lines: Seq<Seq<char>>) -> Seq<char>
    decreases lines.len(),
{
    if lines.len() == 0 {
        seq![]
    } else {
        indented(lines.drop_last()) + "    "@ + lines.last() + "\n"@
    }
}

pub fn indented_lines(lines: &Vec<String>) -> (r: String)
    ensures
        r@ == indented(views(lines@)),
{
    let ghost ls = views(lines@);
    let mut out = String::new();
    let mut i: usize = 0;
    while i < lines.len()
        invariant
            i <= lines.len(),
            ls == views(lines@),
            out@ == indented(ls.take(i as int)),
        decreases lines.len() - i,
    {
        assert(ls.take(i + 1).drop_last() =~= ls.take(i as int));
        push_str(&mut out, "    ");
        push_string(&mut out, &lines[i]);
        push_str(&mut out, "\n");
        i = i + 1;
    }
    assert(ls.take(i as int) =~= ls);
    out
}

pub open spec fn strip_cr(l: Seq<char>) -> Seq<char> {
    if l.len() > 0 && l.last() == '\r' {
        l.drop_last()
    } else {
        l
    }
}

/// The lines of a text as `str::lines` reads them: split at `\n`, a `\r` before it dropped,
/// no line after a final `\n`.
pub open spec fn lines_from(s: Seq<char>, start: int, i: int) -> Seq<Seq<char>>
    decreases s.len() - i,
{
    if i >= s.len() {
        if start < s.len() {
            seq![s.subrange(start, s.len() as int)]
        } else {
            seq![]
        }
    } else if s[i] == '\n' {
        seq![strip_cr(s.subrange(start, i))] + lines_from(s, i + 1, i + 1)
    } else {
        lines_from(s, start, i + 1)
    }
}

pub open spec fn text_lines(s: Seq<char>) -> Seq<Seq<char>> {
    lines_from(s, 0, 0)
}

pub open spec fn spaces(n: nat) -> Seq<char> {
    Seq::new(n, |k: int| ' ')
}

pub open spec fn indent_all(lines: Seq<Seq<char>>, n: nat) -> Seq<char>
    decreases lines.len(),
{
    if lines.len() == 0 {
        seq![]
    } else {
        indent_all(lines.drop_last(), n) + if lines.last().len() == 0 {
            "\n"@
        } else {
            spaces(n) + lines.last() + "\n"@
        }
    }
}

fn text_lines_vec(s: &[char]) -> (r: Vec<Vec<char>>)
    ensures
        crate::case::vviews(r@) == text_lines(s@),
{
    let mut out: Vec<Vec<char>> = Vec::new();
    let mut start: usize = 0;
    let mut i: usize = 0;
    while i < s.len()
        invariant
            start <= i <= s.len(),
            crate::case::vviews(out@) + lines_from(s@, start as int, i as int) == text_lines(s@),
        decreases s.len() - i,
    {
        if s[i] == '\n' {
            let ghost before = out@;
            let seg = crate::text::slice_vec(s, start, i);
            let line = if seg.len() > 0 && seg[seg.len() - 1] == '\r' {
                let l = crate::text::slice_vec(seg.as_slice(), 0, seg.len() - 1);
                assert(l@ =~= seg@.drop_last());
                l
            } else {
                seg
            };
            out.push(line);
            assert(crate::case::vviews(out@) =~= crate::case::vviews(before).push(line@));
            assert(crate::case::vviews(out@) + lines_from(s@, i + 1, i + 1) =~= crate::case::vviews(before) + (seq![strip_cr(s@.subrange(start as int, i as int))] + lines_from(s@, i + 1, i + 1)));
            start = i + 1;
        }
        i = i + 1;
    }
    let ghost before = out@;
    if start < s.len() {
        let seg = crate::text::slice_vec(s, start, s.len());
        out.push(seg);
        assert(crate::case::vviews(out@) =~= crate::case::vviews(before).push(seg@));
    } else {
        assert(crate::case::vviews(out@) =~= crate::case::vviews(before) + lines_from(s@, start as int, i as int));
    }
    out
}

/// Every line of `text` indented by `n` spaces; empty lines stay empty.
pub fn indent_lines(text: &str, n: usize) -> (r: String)
    ensures
        r@ == indent_all(text_lines(text@), n as nat),
{
    let v = crate::text::chars_of(text);
    let lines = text_lines_vec(v.as_slice());
    let ghost ls = crate::case::vviews(lines@);
    let mut prefix: Vec<char> = Vec::new();
    let mut k: usize = 0;
    while k < n
        invariant
            k <= n,
            prefix@ =~= spaces(k as nat),
        decreases n - k,
    {
        prefix.push(' ');
        k = k + 1;
    }
    let mut out = String::new();
    let mut i: usize = 0;
    while i < lines.len()
        invariant
            i <= lines.len(),
            ls == crate::case::vviews(lines@),
            prefix@ == spaces(n as nat),
            out@ == indent_all(ls.take(i as int), n as nat),
        decreases lines.len() - i,
    {
        assert(ls.take(i + 1).drop_last() =~= ls.take(i as int));
        assert(ls[i as int] == lines@[i as int]@);
        if lines[i].len() == 0 {
            push_str(&mut out, "\n");
        } else {
            crate::text::push_chars(&mut out, prefix.as_slice());
            crate::text::push_chars(&mut out, lines[i].as_slice());
            push_str(&mut out, "\n");
        }
        i = i + 1;
    }
    assert(ls.take(i as int) =~= ls);
    out
}

/// `name go-type` for each parameter from position `from` on, joined with commas.
pub open spec fn param_list(ctx: PipelineContextV, ps: Seq<IrParamV>) -> Seq<char> {
    join(ps.map_values(|p: IrParamV| p.name + " "@ + crate::gotypes::go_param(ctx, p.ty)->0), ", "@)
}

pub fn render_param_list(ctx: &PipelineContext, params: &Vec<IrParam>, from: usize) -> (r: String)
    requires
        from <= params.len(),
        crate::gotypes::params_supported(ctx@, params_view(params@), from as int),
    ensures
        r@ == param_list(ctx@, params_view(params@).skip(from as int)),
{
    let ghost ps = params_view(params@).skip(from as int);
    let ghost m = ps.map_values(|p: IrParamV| p.name + " "@ + crate::gotypes::go_param(ctx@, p.ty)->0);
    let mut parts: Vec<String> = Vec::new();
    let mut i: usize = from;
    while i < params.len()
        invariant
            from <= i <= params.len(),
            ps == params_view(params@).skip(from as int),
            m == ps.map_values(|p: IrParamV| p.name + " "@ + crate::gotypes::go_param(ctx@, p.ty)->0),
            crate::gotypes::params_supported(ctx@, params_view(params@), from as int),
            views(parts@) =~= m.take(i - from),
        decreases params.len() - i,
    {
        assert(params_view(params@)[i as int] == params@[i as int]@);
        assert(crate::gotypes::go_param(ctx@, params_view(params@)[i as int].ty) is Some);
        let g = match crate::gotypes::go_param_type(ctx, &params[i].ty) {
            Some(g) => g,
            None => String::new(),
        };
        let e = cat3(params[i].name.as_str(), " ", g.as_str());
        let ghost before = parts@;
        parts.push(e);
        assert(views(parts@) =~= views(before).push(e@));
        assert(m[i - from] == e@);
        i = i + 1;
    }
    assert(m.take(i - from) =~= m);
    crate::text::join_strings(&parts, ", ")
}

/// Whether some parameter from position `from` on has a type of kind `pred`.
pub open spec fn any_param(ps: Seq<IrParamV>, from: int, pred: spec_fn(IrTypeV) -> bool) -> bool {
    exists|k: int| from <= k < ps.len() && #[trigger] pred(ps[k].ty)
}

pub open spec fn is_string_kind(t: IrTypeV) -> bool {
    t.kind == IrTypeKind::String || t.kind == IrTypeKind::CString
}

pub open spec fn is_pointer_kind(t: IrTypeV) -> bool {
    t.kind == IrTypeKind::Pointer || t.kind == IrTypeKind::ExternStructPointer || t.kind
        == IrTypeKind::ExternStructReference
}

pub open spec fn is_byte_array_kind(t: IrTypeV) -> bool {
    t.kind == IrTypeKind::FixedByteArray
}

pub open spec fn is_void_model(t: IrTypeV) -> bool {
    crate::facade::is_model_kind(t.kind) && base_model(t.cpp_type) == "void"@
}

pub open spec fn is_callback_kind(t: IrTypeV) -> bool {
    t.kind == IrTypeKind::Callback
}

/// Which parameter property `param_test` looks for.
pub enum ParamTest {
    Strings,
    Pointers,
    ByteArrays,
    VoidModels,
    Callbacks,
}

pub open spec fn test_of(which: ParamTest) -> spec_fn(IrTypeV) -> bool {
    match which {
        ParamTest::Strings => |t: IrTypeV| is_string_kind(t),
        ParamTest::Pointers => |t: IrTypeV| is_pointer_kind(t),
        ParamTest::ByteArrays => |t: IrTypeV| is_byte_array_kind(t),
        ParamTest::VoidModels => |t: IrTypeV| is_void_model(t),
        ParamTest::Callbacks => |t: IrTypeV| is_callback_kind(t),
    }
}

fn type_passes(ty: &IrType, which: &ParamTest) -> (b: bool)
    ensures
        b == (test_of(*which))(ty@),
{
    match which {
        ParamTest::Strings => ty.kind == IrTypeKind::String || ty.kind == IrTypeKind::CString,
        ParamTest::Pointers => ty.kind == IrTypeKind::Pointer || ty.kind == IrTypeKind::ExternStructPointer
            || ty.kind == IrTypeKind::ExternStructReference,
        ParamTest::ByteArrays => ty.kind == IrTypeKind::FixedByteArray,
        ParamTest::VoidModels => crate::facade::is_model_wrapper_return(ty) && crate::text::str_eq(
            crate::types::base_model_cpp_type(ty.cpp_type.as_str()).as_str(),
            "void",
        ),
        ParamTest::Callbacks => ty.kind == IrTypeKind::Callback,
    }
}

/// Whether a parameter from position `from` on passes the test.
pub fn param_test(params: &Vec<IrParam>, from: usize, which: ParamTest) -> (b: bool)
    ensures
        b == any_param(params_view(params@), from as int, test_of(which)),
{
    let ghost ps = params_view(params@);
    let mut i: usize = from;
    while i < params.len()
        invariant
            from <= i,
            ps == params_view(params@),
            forall|k: int| from <= k < i && k < ps.len() ==> !(#[trigger] (test_of(which))(ps[k].ty)),
        decreases params.len() - i,
    {
        assert(ps[i as int] == params@[i as int]@);
        if type_passes(&params[i].ty, &which) {
            assert(from <= i < ps.len() && (test_of(which))(ps[i as int].ty));
            return true;
        }
        i = i + 1;
    }
    false
}

/// The names of the model parameters whose wrappers track a root.
pub open spec fn rooted_models(
    ctx: PipelineContextV,
    ps: Seq<IrParamV>,
    covered: Seq<Seq<char>>,
    owned: Seq<Seq<char>>,
) -> Seq<Seq<char>>
    decreases ps.len(),
{
    if ps.len() == 0 {
        seq![]
    } else {
        let p = ps.last();
        rooted_models(ctx, ps.drop_last(), covered, owned) + if crate::facade::is_model_kind(p.ty.kind)
            && base_model(p.ty.cpp_type) != "void"@ && has_root(ctx, p.ty.cpp_type, p.ty.handle, covered, owned) {
            seq![p.name]
        } else {
            seq![]
        }
    }
}

/// A borrowed result lives as long as the one rooted model argument, if there is exactly one.
pub open spec fn borrow_root_of(
    ctx: PipelineContextV,
    ps: Seq<IrParamV>,
    covered: Seq<Seq<char>>,
    owned: Seq<Seq<char>>,
) -> Option<Seq<char>> {
    let ms = rooted_models(ctx, ps, covered, owned);
    if ms.len() == 1 {
        Some(ms[0] + ".root"@)
    } else {
        None
    }
}

pub fn infer_borrow_root_expr(
    ctx: &PipelineContext,
    params: &Vec<IrParam>,
    from: usize,
    covered_handles: &Vec<String>,
    owned_opaque_value_handles: &Vec<String>,
) -> (r: Option<String>)
    requires
        from <= params.len(),
    ensures
        opt_view(r) == borrow_root_of(ctx@, params_view(params@).skip(from as int), strs(covered_handles@), strs(owned_opaque_value_handles@)),
{
    let ghost ps = params_view(params@).skip(from as int);
    let ghost cov = strs(covered_handles@);
    let ghost own = strs(owned_opaque_value_handles@);
    let mut names: Vec<String> = Vec::new();
    let mut i: usize = from;
    assert(ps.take(0) =~= Seq::<IrParamV>::empty());
    while i < params.len()
        invariant
            from <= i <= params.len(),
            ps == params_view(params@).skip(from as int),
            cov == strs(covered_handles@),
            own == strs(owned_opaque_value_handles@),
            views(names@) =~= rooted_models(ctx@, ps.take(i - from), cov, own),
        decreases params.len() - i,
    {
        assert(ps.take(i + 1 - from).drop_last() =~= ps.take(i - from));
        assert(ps.take(i + 1 - from).last() == params@[i as int]@);
        let ty = &params[i].ty;
        if crate::facade::is_model_wrapper_return(ty) && !crate::text::str_eq(
            crate::types::base_model_cpp_type(ty.cpp_type.as_str()).as_str(),
            "void",
        ) && model_handle_has_root(ctx, ty.cpp_type.as_str(), &ty.handle, covered_handles, owned_opaque_value_handles) {
            push_line(&mut names, params[i].name.clone());
        }
        i = i + 1;
    }
    assert(ps.take(i - from) =~= ps);
    if names.len() == 1 {
        Some(cat2(names[0].as_str(), ".root"))
    } else {
        None
    }
}

/// A direct call returns its own result; a dispatcher candidate adds a `nil` error.
#[derive(Clone, Copy, PartialEq, Eq, Structural)]
pub enum ReturnMode {
    Direct,
    Dispatcher,
}

pub open spec fn success_suffix(mode: ReturnMode) -> Seq<char> {
    match mode {
        ReturnMode::Direct => ""@,
        ReturnMode::Dispatcher => ", nil"@,
    }
}

pub fn dispatcher_success_suffix(mode: ReturnMode) -> (r: &'static str)
    ensures
        r@ == success_suffix(mode),
{
    match mode {
        ReturnMode::Direct => "",
        ReturnMode::Dispatcher => ", nil",
    }
}

/// Which results the call-and-return rendering can take.
pub open spec fn return_renderable(ctx: PipelineContextV, t: IrTypeV) -> bool {
    match t.kind {
        IrTypeKind::Void | IrTypeKind::String | IrTypeKind::CString | IrTypeKind::FixedByteArray
        | IrTypeKind::FixedArray | IrTypeKind::FixedModelArray => true,
        IrTypeKind::Pointer => crate::gotypes::go_pointer_return(t) is Some,
        _ => crate::facade::is_model_kind(t.kind) || go_value(ctx, t) is Some,
    }
}

pub open spec fn byte_len_of(cpp: Seq<char>) -> nat {
    match crate::types::byte_array_len(cpp) {
        Some(n) => (n as usize) as nat,
        None => 0,
    }
}

/// Whether the result's wrapper type has the owned/borrowed helpers.
pub open spec fn has_wrapper_helpers(
    ctx: PipelineContextV,
    t: IrTypeV,
    covered: Seq<Seq<char>>,
    owned: Seq<Seq<char>>,
) -> bool {
    proj_of(ctx, t.cpp_type) is Some || match t.handle {
        Some(h) => covered.contains(h) || owned.contains(h),
        None => false,
    }
}

/// The text from the C call to the return: call, post-call lines, nil check, conversion.
pub open spec fn call_return_text(
    ctx: PipelineContextV,
    f: crate::ir::IrFunctionV,
    call: Seq<char>,
    posts: Seq<Seq<char>>,
    borrow_root: Option<Seq<char>>,
    covered: Seq<Seq<char>>,
    owned: Seq<Seq<char>>,
    mode: ReturnMode,
) -> Seq<char> {
    let t = f.returns;
    let raw = "    raw := "@ + call + "\n"@ + indented(posts);
    let sfx = success_suffix(mode);
    match t.kind {
        IrTypeKind::Void => "    "@ + call + "\n"@ + indented(posts) + if mode == ReturnMode::Dispatcher {
            "    return nil\n"@
        } else {
            seq![]
        },
        IrTypeKind::String => raw
            + "    if raw == nil {\n        return \"\", errors.New(\"wrapper returned nil string\")\n    }\n    defer C.cgowrap_string_free(raw)\n    return C.GoString(raw), nil\n"@,
        IrTypeKind::CString => raw
            + "    if raw == nil {\n        return \"\", errors.New(\"wrapper returned nil string\")\n    }\n    return C.GoString(raw), nil\n"@,
        IrTypeKind::FixedByteArray => raw
            + "    if raw == nil {\n        return nil, errors.New(\"wrapper returned nil byte array\")\n    }\n    defer C.cgowrap_byte_array_free(raw)\n    return C.GoBytes(unsafe.Pointer(raw), C.int("@
            + decimal(byte_len_of(t.cpp_type)) + ")), nil\n"@,
        IrTypeKind::FixedArray => {
            let n = decimal(array_len_of(t.cpp_type));
            let ge = crate::gotypes::array_go_elem(t);
            raw
                + "    if raw == nil {\n        return nil, errors.New(\"wrapper returned nil array\")\n    }\n    defer C.cgowrap_array_free(unsafe.Pointer(raw))\n    cSlice := (*["@
                + n + "]"@ + array_cgo_elem(t) + ")(unsafe.Pointer(raw))\n    result := make([]"@ + ge + ", "@ + n
                + ")\n    for i := range result {\n        result[i] = "@ + ge + "(cSlice[i])\n    }\n    return result, nil\n"@
        },
        IrTypeKind::FixedModelArray => {
            let n = decimal(array_len_of(t.cpp_type));
            let g = model_go_name(ctx, t);
            let ch = match t.handle {
                Some(h) => h,
                None => seq![],
            };
            raw
                + "    if raw == nil {\n        return nil, errors.New(\"wrapper returned nil model array\")\n    }\n    defer C.free(unsafe.Pointer(raw))\n    cSlice := (*["@
                + n + "]*C."@ + ch + ")(unsafe.Pointer(raw))\n    result := make([]*"@ + g + ", "@ + n
                + ")\n    for i := range result {\n        result[i] = "@ + (if proj_of(ctx, t.cpp_type) is Some {
                "newOwned"@ + g + "(cSlice[i])"@
            } else {
                "&"@ + g + "{ptr: cSlice[i]}"@
            }) + "\n    }\n    return result, nil\n"@
        },
        IrTypeKind::Pointer => raw + "    return ("@ + crate::gotypes::go_pointer_return(t)->0 + ")(unsafe.Pointer(raw))"@ + sfx
            + "\n"@,
        _ => if crate::facade::is_model_kind(t.kind) {
            let g = model_go_name(ctx, t);
            if g == "unsafe.Pointer"@ {
                raw + "    return unsafe.Pointer(raw)"@ + sfx + "\n"@
            } else {
                let ptr = cast_raw(ctx, t, "raw"@);
                let value = if has_wrapper_helpers(ctx, t, covered, owned) {
                    if t.kind == IrTypeKind::ModelPointer && crate::context::owner_listed(ctx.config.input.owner, f.cpp_name) {
                        "&"@ + g + "{ptr: "@ + ptr + ", owned: true, root: new(bool)}"@
                    } else if crate::facade::owned_model_return(ctx, f, t) {
                        "newOwned"@ + g + "("@ + ptr + ")"@
                    } else {
                        "newBorrowed"@ + g + "("@ + ptr + ", "@ + (match borrow_root {
                            Some(b) => b,
                            None => "nil"@,
                        }) + ")"@
                    }
                } else {
                    "&"@ + g + "{ptr: "@ + ptr + "}"@
                };
                raw + "    if raw == nil {\n        return nil"@ + sfx + "\n    }\n    return "@ + value + sfx + "\n"@
            }
        } else {
            let g = go_value(ctx, t)->0;
            if g == "bool"@ {
                "    result := "@ + call + "\n"@ + indented(posts) + "    return bool(result)"@ + sfx + "\n"@
            } else if posts.len() == 0 && mode == ReturnMode::Direct {
                "    return "@ + g + "("@ + call + ")\n"@
            } else {
                "    result := "@ + call + "\n"@ + indented(posts) + "    return "@ + g + "(result)"@ + sfx + "\n"@
            }
        },
    }
}

fn has_wrapper_helpers_exec(
    ctx: &PipelineContext,
    ty: &IrType,
    covered_handles: &Vec<String>,
    owned_opaque_value_handles: &Vec<String>,
) -> (b: bool)
    ensures
        b == has_wrapper_helpers(ctx@, ty@, strs(covered_handles@), strs(owned_opaque_value_handles@)),
{
    match projection_handle(ctx, ty.cpp_type.as_str()) {
        Some(_) => true,
        None => match &ty.handle {
            Some(h) => crate::ir::contains_str(covered_handles, crate::text::chars_of(h.as_str()).as_slice())
                || crate::ir::contains_str(owned_opaque_value_handles, crate::text::chars_of(h.as_str()).as_slice()),
            None => false,
        },
    }
}

/// Renders the body from the C call to the return, for a direct call or a dispatcher
/// candidate.
pub fn render_go_call_return_with_mode(
    ctx: &PipelineContext,
    function: &crate::ir::IrFunction,
    call: &str,
    post_call_lines: &Vec<String>,
    borrow_root: Option<String>,
    covered_handles: &Vec<String>,
    owned_opaque_value_handles: &Vec<String>,
    mode: ReturnMode,
) -> (r: String)
    requires
        return_renderable(ctx@, function@.returns),
    ensures
        r@ == call_return_text(
            ctx@,
            function@,
            call@,
            views(post_call_lines@),
            opt_view(borrow_root),
            strs(covered_handles@),
            strs(owned_opaque_value_handles@),
            mode,
        ),
{
    let ty = &function.returns;
    let posts = indented_lines(post_call_lines);
    let sfx = dispatcher_success_suffix(mode);
    let mut raw = cat3("    raw := ", call, "\n");
    push_string(&mut raw, &posts);
    match ty.kind {
        IrTypeKind::Void => {
            let mut out = cat3("    ", call, "\n");
            push_string(&mut out, &posts);
            if mode == ReturnMode::Dispatcher {
                push_str(&mut out, "    return nil\n");
            }
            out
        },
        IrTypeKind::String => {
            push_str(
                &mut raw,
                "    if raw == nil {\n        return \"\", errors.New(\"wrapper returned nil string\")\n    }\n    defer C.cgowrap_string_free(raw)\n    return C.GoString(raw), nil\n",
            );
            raw
        },
        IrTypeKind::CString => {
            push_str(
                &mut raw,
                "    if raw == nil {\n        return \"\", errors.New(\"wrapper returned nil string\")\n    }\n    return C.GoString(raw), nil\n",
            );
            raw
        },
        IrTypeKind::FixedByteArray => {
            let n = match crate::types::byte_array_length(ty.cpp_type.as_str()) {
                Some(n) => n,
                None => 0,
            };
            push_str(
                &mut raw,
                "    if raw == nil {\n        return nil, errors.New(\"wrapper returned nil byte array\")\n    }\n    defer C.cgowrap_byte_array_free(raw)\n    return C.GoBytes(unsafe.Pointer(raw), C.int(",
            );
            let d = decimal_string(n);
            push_string(&mut raw, &d);
            push_str(&mut raw, ")), nil\n");
            raw
        },
        IrTypeKind::FixedArray => {
            let n = decimal_string(array_length_or_zero(ty.cpp_type.as_str()));
            let ge = crate::gotypes::fixed_array_go_elem_type(ty);
            push_str(
                &mut raw,
                "    if raw == nil {\n        return nil, errors.New(\"wrapper returned nil array\")\n    }\n    defer C.cgowrap_array_free(unsafe.Pointer(raw))\n    cSlice := (*[",
            );
            push_string(&mut raw, &n);
            push_str(&mut raw, "]");
            push_str(&mut raw, fixed_array_cgo_elem_type(ty));
            push_str(&mut raw, ")(unsafe.Pointer(raw))\n    result := make([]");
            push_str(&mut raw, ge);
            push_str(&mut raw, ", ");
            push_string(&mut raw, &n);
            push_str(&mut raw, ")\n    for i := range result {\n        result[i] = ");
            push_str(&mut raw, ge);
            push_str(&mut raw, "(cSlice[i])\n    }\n    return result, nil\n");
            raw
        },
        IrTypeKind::FixedModelArray => {
            let n = decimal_string(array_length_or_zero(ty.cpp_type.as_str()));
            let g = go_model_return_type(ctx, ty);
            let ch = match &ty.handle {
                Some(h) => h.clone(),
                None => String::new(),
            };
            push_str(
                &mut raw,
                "    if raw == nil {\n        return nil, errors.New(\"wrapper returned nil model array\")\n    }\n    defer C.free(unsafe.Pointer(raw))\n    cSlice := (*[",
            );
            push_string(&mut raw, &n);
            push_str(&mut raw, "]*C.");
            push_string(&mut raw, &ch);
            push_str(&mut raw, ")(unsafe.Pointer(raw))\n    result := make([]*");
            push_string(&mut raw, &g);
            push_str(&mut raw, ", ");
            push_string(&mut raw, &n);
            push_str(&mut raw, ")\n    for i := range result {\n        result[i] = ");
            if projection_handle(ctx, ty.cpp_type.as_str()).is_some() {
                push_str(&mut raw, "newOwned");
                push_string(&mut raw, &g);
                push_str(&mut raw, "(cSlice[i])");
            } else {
                push_str(&mut raw, "&");
                push_string(&mut raw, &g);
                push_str(&mut raw, "{ptr: cSlice[i]}");
            }
            push_str(&mut raw, "\n    }\n    return result, nil\n");
            raw
        },
        IrTypeKind::Pointer => {
            let g = match crate::gotypes::go_pointer_return_type(ty) {
                Some(g) => g,
                None => String::new(),
            };
            push_str(&mut raw, "    return (");
            push_string(&mut raw, &g);
            push_str(&mut raw, ")(unsafe.Pointer(raw))");
            push_str(&mut raw, sfx);
            push_str(&mut raw, "\n");
            raw
        },
        _ => {
            if crate::facade::is_model_wrapper_return(ty) {
                let g = go_model_return_type(ctx, ty);
                if crate::text::str_eq(g.as_str(), "unsafe.Pointer") {
                    push_str(&mut raw, "    return unsafe.Pointer(raw)");
                    push_str(&mut raw, sfx);
                    push_str(&mut raw, "\n");
                    raw
                } else {
                    let ptr = cast_raw_to_projection_handle(ctx, ty, "raw");
                    let value = if has_wrapper_helpers_exec(ctx, ty, covered_handles, owned_opaque_value_handles) {
                        if crate::facade::model_return_uses_inline_owned_literal(ctx, function, ty) {
                            cat5("&", g.as_str(), "{ptr: ", ptr.as_str(), ", owned: true, root: new(bool)}")
                        } else if crate::facade::model_return_is_owned(ctx, function, ty) {
                            cat5("newOwned", g.as_str(), "(", ptr.as_str(), ")")
                        } else {
                            let root = match &borrow_root {
                                Some(b) => b.clone(),
                                None => String::from_str("nil"),
                            };
                            cat7("newBorrowed", g.as_str(), "(", ptr.as_str(), ", ", root.as_str(), ")")
                        }
                    } else {
                        cat5("&", g.as_str(), "{ptr: ", ptr.as_str(), "}")
                    };
                    push_str(&mut raw, "    if raw == nil {\n        return nil");
                    push_str(&mut raw, sfx);
                    push_str(&mut raw, "\n    }\n    return ");
                    push_string(&mut raw, &value);
                    push_str(&mut raw, sfx);
                    push_str(&mut raw, "\n");
                    raw
                }
            } else {
                let g = match go_value_type_exec(ctx, ty) {
                    Some(g) => g,
                    None => String::new(),
                };
                if crate::text::str_eq(g.as_str(), "bool") {
                    let mut out = cat3("    result := ", call, "\n");
                    push_string(&mut out, &posts);
                    push_str(&mut out, "    return bool(result)");
                    push_str(&mut out, sfx);
                    push_str(&mut out, "\n");
                    out
                } else if post_call_lines.len() == 0 && mode == ReturnMode::Direct {
                    cat5("    return ", g.as_str(), "(", call, ")\n")
                } else {
                    let mut out = cat3("    result := ", call, "\n");
                    push_string(&mut out, &posts);
                    push_str(&mut out, "    return ");
                    push_string(&mut out, &g);
                    push_str(&mut out, "(result)");
                    push_str(&mut out, sfx);
                    push_str(&mut out, "\n");
                    out
                }
            }
        },
    }
}

fn go_value_type_exec(ctx: &PipelineContext, ty: &IrType) -> (r: Option<String>)
    ensures
        opt_view(r) == go_value(ctx@, ty@),
{
    crate::gotypes::go_value_type(ctx, ty)
}

/// The direct form.
pub fn render_go_call_return(
    ctx: &PipelineContext,
    function: &crate::ir::IrFunction,
    call: &str,
    post_call_lines: &Vec<String>,
    borrow_root: Option<String>,
    covered_handles: &Vec<String>,
    owned_opaque_value_handles: &Vec<String>,
) -> (r: String)
    requires
        return_renderable(ctx@, function@.returns),
    ensures
        r@ == call_return_text(
            ctx@,
            function@,
            call@,
            views(post_call_lines@),
            opt_view(borrow_root),
            strs(covered_handles@),
            strs(owned_opaque_value_handles@),
            ReturnMode::Direct,
        ),
{
    render_go_call_return_with_mode(
        ctx,
        function,
        call,
        post_call_lines,
        borrow_root,
        covered_handles,
        owned_opaque_value_handles,
        ReturnMode::Direct,
    )
}

pub open spec fn sig_part(sig: Seq<char>) -> Seq<char> {
    if sig.len() == 0 {
        seq![]
    } else {
        " "@ + sig
    }
}

fn render_sig_part(ctx: &PipelineContext, ty: &IrType) -> (r: String)
    ensures
        r@ == sig_part(crate::facade::return_sig(ctx@, ty@)),
{
    let sig = crate::facade::go_return_sig(ctx, ty);
    if sig.as_str().unicode_len() == 0 {
        String::new()
    } else {
        cat2(" ", sig.as_str())
    }
}

pub open spec fn has_callback_params(ps: Seq<IrParamV>, from: int) -> bool {
    any_param(ps, from, test_of(ParamTest::Callbacks))
}

/// What a free function needs to be rendered (the generator stops otherwise).
pub open spec fn free_renderable(ctx: PipelineContextV, f: crate::ir::IrFunctionV) -> bool {
    &&& crate::gotypes::params_supported(ctx, f.params, 0)
    &&& crate::gotypes::receiver_bound_ok(f)
    &&& return_renderable(ctx, f.returns)
    &&& callback_params_renderable(f.params)
}

/// A Go function over a free C function: parameters, preparation, call and return; with
/// callbacks, through the C bridge.
#[verifier::opaque]
pub open spec fn free_function_text(
    ctx: PipelineContextV,
    f: crate::ir::IrFunctionV,
    covered: Seq<Seq<char>>,
    owned: Seq<Seq<char>>,
) -> Seq<char> {
    let cb = has_callback_params(f.params, 0);
    let prep = if cb {
        callback_prep_of(ctx, f, f.params, 0, covered, owned)
    } else {
        prep_of(ctx, f.params, covered, owned)
    };
    let call = "C."@ + f.name + (if cb {
        "_bridge("@
    } else {
        "("@
    }) + join(prep.args, ", "@) + ")"@;
    "func "@ + crate::gotypes::facade_export(f) + "("@ + param_list(ctx, f.params) + ")"@ + sig_part(
        crate::facade::return_sig(ctx, f.returns),
    ) + " {\n"@ + indented(prep.setup) + indented(prep.defers) + call_return_text(
        ctx,
        f,
        call,
        prep.posts,
        borrow_root_of(ctx, f.params, covered, owned),
        covered,
        owned,
        ReturnMode::Direct,
    ) + "}\n"@
}

pub proof fn lemma_no_callbacks_renderable(ps: Seq<IrParamV>, from: int)
    requires
        0 <= from <= ps.len(),
        callback_params_renderable(ps.skip(from)),
        !has_callback_params(ps, from),
    ensures
        params_renderable(ps.skip(from)),
{
    assert forall|k: int| 0 <= k < ps.skip(from).len() implies #[trigger] param_renderable(ps.skip(from)[k].ty) by {
        assert(ps.skip(from)[k] == ps[k + from]);
        if ps[k + from].ty.kind == IrTypeKind::Callback {
            assert((test_of(ParamTest::Callbacks))(ps[k + from].ty));
        }
    }
}

pub fn render_free_function(
    ctx: &PipelineContext,
    function: &crate::ir::IrFunction,
    covered_handles: &Vec<String>,
    owned_opaque_value_handles: &Vec<String>,
) -> (r: String)
    requires
        free_renderable(ctx@, function@),
    ensures
        r@ == free_function_text(ctx@, function@, strs(covered_handles@), strs(owned_opaque_value_handles@)),
{
    proof {
        reveal(free_function_text);
    }
    let ghost f = function@;
    assert(f.params.skip(0) =~= f.params);
    let cb = param_test(&function.params, 0, ParamTest::Callbacks);
    let params = render_param_list(ctx, &function.params, 0);
    let prep = if cb {
        render_callback_call_prep(ctx, function, 0, covered_handles, owned_opaque_value_handles)
    } else {
        proof {
            lemma_no_callbacks_renderable(f.params, 0);
        }
        render_call_prep(ctx, &function.params, 0, covered_handles, owned_opaque_value_handles)
    };
    let args = crate::text::join_strings(&prep.args, ", ");
    let call = if cb {
        cat5("C.", function.name.as_str(), "_bridge(", args.as_str(), ")")
    } else {
        cat5("C.", function.name.as_str(), "(", args.as_str(), ")")
    };
    let go_name = crate::gotypes::go_facade_export_name(function);
    let borrow_root = infer_borrow_root_expr(ctx, &function.params, 0, covered_handles, owned_opaque_value_handles);
    let sig = render_sig_part(ctx, &function.returns);
    let mut out = cat6("func ", go_name.as_str(), "(", params.as_str(), ")", sig.as_str());
    push_str(&mut out, " {\n");
    let setup = indented_lines(&prep.setup_lines);
    push_string(&mut out, &setup);
    let defers = indented_lines(&prep.defer_lines);
    push_string(&mut out, &defers);
    let ret = render_go_call_return(
        ctx,
        function,
        call.as_str(),
        &prep.post_call_lines,
        borrow_root,
        covered_handles,
        owned_opaque_value_handles,
    );
    push_string(&mut out, &ret);
    push_str(&mut out, "}\n");
    out
}

// ---------------------------------------------------------------------------
// Methods
// ---------------------------------------------------------------------------

/// The parameters after the receiver.
pub open spec fn after_receiver(ps: Seq<IrParamV>) -> Seq<IrParamV> {
    if ps.len() > 0 {
        ps.skip(1)
    } else {
        ps
    }
}

pub open spec fn closed_check(recv: Seq<char>, cls: Seq<char>) -> Seq<char> {
    "    if "@ + recv + ".root != nil && *"@ + recv + ".root {\n        panic(\""@ + cls + " handle is closed\")\n    }\n"@
}

pub open spec fn nil_receiver(recv: Seq<char>, stmt: Seq<char>) -> Seq<char> {
    "    if "@ + recv + " == nil || "@ + recv + ".ptr == nil {\n        "@ + stmt + "\n    }\n"@
}

pub open spec fn method_head(recv: Seq<char>, cls: Seq<char>, name: Seq<char>, params: Seq<char>, sig: Seq<char>) -> Seq<char> {
    "func ("@ + recv + " *"@ + cls + ") "@ + name + "("@ + params + ")"@ + sig + " {\n"@
}

/// A getter of a whole model array, element by element through the indexed getter.
pub open spec fn array_getter_text(ctx: PipelineContextV, c: crate::facade::FacadeClassV, f: crate::ir::IrFunctionV) -> Seq<char> {
    let recv = crate::case::receiver(c.go_name);
    let g = model_go_name(ctx, f.returns);
    let n = decimal(array_len_of(f.returns.cpp_type));
    let at = go_export(crate::gotypes::leaf(f.cpp_name) + "At"@);
    method_head(recv, c.go_name, crate::gotypes::facade_export(f), seq![], " ([]*"@ + g + ", error)"@)
        + nil_receiver(recv, "return nil, errors.New(\"facade receiver is nil\")"@) + closed_check(recv, c.go_name)
        + "    result := make([]*"@ + g + ", "@ + n + ")\n    for i := range result {\n        result[i] = "@ + recv
        + "."@ + at
        + "(i)\n        if result[i] == nil {\n            return nil, errors.New(\"wrapper returned nil model array element\")\n        }\n    }\n    return result, nil\n"@
        + "}\n"@
}

/// The declared parameters of a whole-array setter.
pub open spec fn dummy_param_type(t: IrTypeV) -> Seq<char> {
    if t.kind == IrTypeKind::FixedModelArray {
        "[]*"@ + match t.handle {
            Some(h) => match crate::text::strip_suffix(h, "Handle"@) {
                Some(b) => go_export(b),
                None => "unsafe.Pointer"@,
            },
            None => "unsafe.Pointer"@,
        }
    } else {
        match crate::gotypes::go_type_ir(t) {
            Some(g) => g,
            None => "int32"@,
        }
    }
}

pub open spec fn dummy_params(ps: Seq<IrParamV>) -> Seq<char> {
    join(ps.map_values(|p: IrParamV| p.name + " "@ + dummy_param_type(p.ty)), ", "@)
}

/// A setter of a whole model array, element by element through the indexed setter.
pub open spec fn array_setter_text(c: crate::facade::FacadeClassV, f: crate::ir::IrFunctionV) -> Seq<char> {
    let recv = crate::case::receiver(c.go_name);
    let n = decimal(array_len_of(f.params[1].ty.cpp_type));
    let at = go_export(crate::gotypes::leaf(f.cpp_name) + "At"@);
    let v = f.params[1].name;
    let ex = crate::gotypes::facade_export(f);
    method_head(recv, c.go_name, ex, dummy_params(after_receiver(f.params)), seq![]) + nil_receiver(recv, "return"@)
        + closed_check(recv, c.go_name) + "    if len("@ + v + ") != "@ + n + " {\n        panic(\""@ + c.go_name + " "@ + ex
        + " requires "@ + n + " elements\")\n    }\n"@ + "    for i := range "@ + v + " {\n        "@ + recv + "."@ + at
        + "(i, "@ + v + "[i])\n    }\n"@ + "}\n"@
}

/// A getter of one element of a model array.
pub open spec fn array_getter_at_text(ctx: PipelineContextV, c: crate::facade::FacadeClassV, f: crate::ir::IrFunctionV) -> Seq<char> {
    let recv = crate::case::receiver(c.go_name);
    let g = model_go_name(ctx, f.returns);
    let ptr = cast_raw(ctx, f.returns, "raw"@);
    let wrap = if proj_of(ctx, f.returns.cpp_type) is Some {
        "newBorrowed"@ + g + "("@ + ptr + ", "@ + recv + ".root)"@
    } else {
        "&"@ + g + "{ptr: "@ + ptr + "}"@
    };
    method_head(recv, c.go_name, crate::gotypes::facade_export(f), "index int"@, " *"@ + g) + nil_receiver(recv, "return nil"@)
        + closed_check(recv, c.go_name) + "    raw := C."@ + f.name + "("@ + recv
        + ".ptr, C.int(index))\n    if raw == nil {\n        return nil\n    }\n    return "@ + wrap + "\n"@ + "}\n"@
}

/// A setter of one element of a model array.
pub open spec fn array_setter_at_text(
    ctx: PipelineContextV,
    c: crate::facade::FacadeClassV,
    f: crate::ir::IrFunctionV,
    covered: Seq<Seq<char>>,
    owned: Seq<Seq<char>>,
) -> Seq<char> {
    let recv = crate::case::receiver(c.go_name);
    let vp = f.params[2];
    let g = match crate::gotypes::go_param(ctx, vp.ty) {
        Some(g) => g,
        None => "*unsafe.Pointer"@,
    };
    method_head(recv, c.go_name, crate::gotypes::facade_export(f), "index int, "@ + vp.name + " "@ + g, seq![])
        + nil_receiver(recv, "return"@) + closed_check(recv, c.go_name) + indented(
        handle_setup(ctx, vp.ty, vp.name, "cArg1"@, covered, owned),
    ) + "    C."@ + f.name + "("@ + recv + ".ptr, C.int(index), cArg1)\n"@ + "}\n"@
}

/// The field accessors over model arrays get methods of their own.
pub open spec fn special_field_text(
    ctx: PipelineContextV,
    c: crate::facade::FacadeClassV,
    f: crate::ir::IrFunctionV,
    covered: Seq<Seq<char>>,
    owned: Seq<Seq<char>>,
) -> Option<Seq<char>> {
    match f.field_accessor {
        None => None,
        Some(a) => if a.access == crate::kind::FieldAccessKind::Get && f.returns.kind == IrTypeKind::FixedModelArray {
            Some(array_getter_text(ctx, c, f))
        } else if a.access == crate::kind::FieldAccessKind::Put && f.params.len() > 1 && f.params[1].ty.kind
            == IrTypeKind::FixedModelArray {
            Some(array_setter_text(c, f))
        } else if a.access == crate::kind::FieldAccessKind::GetAt {
            Some(array_getter_at_text(ctx, c, f))
        } else if a.access == crate::kind::FieldAccessKind::SetAt {
            Some(array_setter_at_text(ctx, c, f, covered, owned))
        } else {
            None
        },
    }
}

/// A Go method over a C method: receiver checks, preparation, call and return; with
/// callbacks, through the C bridge.
pub open spec fn plain_method_text(
    ctx: PipelineContextV,
    c: crate::facade::FacadeClassV,
    f: crate::ir::IrFunctionV,
    covered: Seq<Seq<char>>,
    owned: Seq<Seq<char>>,
) -> Seq<char> {
    let recv = crate::case::receiver(c.go_name);
    let ps = after_receiver(f.params);
    let from: nat = if f.params.len() > 0 { 1 } else { 0 };
    let cb = has_callback_params(f.params, 1);
    let prep = if cb {
        callback_prep_of(ctx, f, ps, from, covered, owned)
    } else {
        prep_of(ctx, ps, covered, owned)
    };
    let call = "C."@ + f.name + (if cb {
        "_bridge("@
    } else {
        "("@
    }) + join(seq![recv + ".ptr"@] + prep.args, ", "@) + ")"@;
    method_head(recv, c.go_name, crate::gotypes::facade_export(f), param_list(ctx, ps), sig_part(crate::facade::return_sig(ctx, f.returns)))
        + nil_receiver(recv, crate::facade::nil_return(f.returns)) + closed_check(recv, c.go_name) + indented(prep.setup)
        + indented(prep.defers) + call_return_text(ctx, f, call, prep.posts, Some(recv + ".root"@), covered, owned, ReturnMode::Direct)
        + "}\n"@
}

#[verifier::opaque]
pub open spec fn method_text(
    ctx: PipelineContextV,
    c: crate::facade::FacadeClassV,
    f: crate::ir::IrFunctionV,
    covered: Seq<Seq<char>>,
    owned: Seq<Seq<char>>,
) -> Seq<char> {
    match special_field_text(ctx, c, f, covered, owned) {
        Some(t) => t,
        None => plain_method_text(ctx, c, f, covered, owned),
    }
}

/// What a method needs to be rendered (the generator stops otherwise).
pub open spec fn method_renderable(ctx: PipelineContextV, f: crate::ir::IrFunctionV) -> bool {
    &&& crate::gotypes::params_supported(ctx, f.params, 1)
    &&& crate::gotypes::receiver_bound_ok(f)
    &&& return_renderable(ctx, f.returns)
    &&& callback_params_renderable(after_receiver(f.params))
    &&& (f.field_accessor matches Some(a) && a.access == crate::kind::FieldAccessKind::SetAt ==> f.params.len() > 2)
}

pub fn closed_check_text(recv: &str, cls: &str) -> (r: String)
    ensures
        r@ == closed_check(recv@, cls@),
{
    let mut out = cat5("    if ", recv, ".root != nil && *", recv, ".root {\n        panic(\"");
    push_str(&mut out, cls);
    push_str(&mut out, " handle is closed\")\n    }\n");
    out
}

fn nil_receiver_text(recv: &str, stmt: &str) -> (r: String)
    ensures
        r@ == nil_receiver(recv@, stmt@),
{
    let mut out = cat5("    if ", recv, " == nil || ", recv, ".ptr == nil {\n        ");
    push_str(&mut out, stmt);
    push_str(&mut out, "\n    }\n");
    out
}

fn method_head_text(recv: &str, cls: &str, name: &str, params: &str, sig: &str) -> (r: String)
    ensures
        r@ == method_head(recv@, cls@, name@, params@, sig@),
{
    let mut out = cat6("func (", recv, " *", cls, ") ", name);
    push_str(&mut out, "(");
    push_str(&mut out, params);
    push_str(&mut out, ")");
    push_str(&mut out, sig);
    push_str(&mut out, " {\n");
    out
}

fn at_method_name(function: &crate::ir::IrFunction) -> (r: String)
    ensures
        r@ == go_export(crate::gotypes::leaf(function@.cpp_name) + "At"@),
{
    let m = crate::gotypes::method_name(function);
    let with_at = cat2(m.as_str(), "At");
    go_export_name(with_at.as_str())
}

fn render_fixed_model_array_getter_wrapper(
    ctx: &PipelineContext,
    class: &crate::facade::FacadeClass,
    function: &crate::ir::IrFunction,
) -> (r: String)
    requires
        crate::gotypes::receiver_bound_ok(function@),
    ensures
        r@ == array_getter_text(ctx@, class@, function@),
{
    proof {
        reveal_strlit("");
    }
    let recv = crate::case::receiver_name(class.go_name.as_str());
    let g = go_model_return_type(ctx, &function.returns);
    let n = decimal_string(array_length_or_zero(function.returns.cpp_type.as_str()));
    let at = at_method_name(function);
    let ex = crate::gotypes::go_method_export_name(function);
    let sig = cat3(" ([]*", g.as_str(), ", error)");
    let mut out = method_head_text(recv.as_str(), class.go_name.as_str(), ex.as_str(), "", sig.as_str());
    let nr = nil_receiver_text(recv.as_str(), "return nil, errors.New(\"facade receiver is nil\")");
    push_string(&mut out, &nr);
    let cc = closed_check_text(recv.as_str(), class.go_name.as_str());
    push_string(&mut out, &cc);
    push_str(&mut out, "    result := make([]*");
    push_string(&mut out, &g);
    push_str(&mut out, ", ");
    push_string(&mut out, &n);
    push_str(&mut out, ")\n    for i := range result {\n        result[i] = ");
    push_string(&mut out, &recv);
    push_str(&mut out, ".");
    push_string(&mut out, &at);
    push_str(
        &mut out,
        "(i)\n        if result[i] == nil {\n            return nil, errors.New(\"wrapper returned nil model array element\")\n        }\n    }\n    return result, nil\n",
    );
    push_str(&mut out, "}\n");
    out
}

fn render_param_list_dummy(function: &crate::ir::IrFunction) -> (r: String)
    ensures
        r@ == dummy_params(after_receiver(function@.params)),
{
    let ghost ps = after_receiver(function@.params);
    let ghost m = ps.map_values(|p: IrParamV| p.name + " "@ + dummy_param_type(p.ty));
    let from: usize = if function.params.len() > 0 { 1 } else { 0 };
    assert(ps =~= function@.params.skip(from as int));
    let mut parts: Vec<String> = Vec::new();
    let mut i: usize = from;
    while i < function.params.len()
        invariant
            from <= i <= function.params.len(),
            ps == function@.params.skip(from as int),
            m == ps.map_values(|p: IrParamV| p.name + " "@ + dummy_param_type(p.ty)),
            views(parts@) =~= m.take(i - from),
        decreases function.params.len() - i,
    {
        let p = &function.params[i];
        assert(ps[i - from] == p@);
        let t = if p.ty.kind == IrTypeKind::FixedModelArray {
            let b = match &p.ty.handle {
                Some(h) => {
                    let hv = crate::text::chars_of(h.as_str());
                    match crate::text::strip_suffix_lit(hv.as_slice(), "Handle") {
                        Some(b) => go_export_name(crate::text::string_of(b.as_slice()).as_str()),
                        None => String::from_str("unsafe.Pointer"),
                    }
                },
                None => String::from_str("unsafe.Pointer"),
            };
            cat2("[]*", b.as_str())
        } else {
            match crate::gotypes::go_type_for_ir(&p.ty) {
                Some(g) => String::from_str(g),
                None => String::from_str("int32"),
            }
        };
        let e = cat3(p.name.as_str(), " ", t.as_str());
        let ghost before = parts@;
        parts.push(e);
        assert(views(parts@) =~= views(before).push(e@));
        i = i + 1;
    }
    assert(m.take(i - from) =~= m);
    crate::text::join_strings(&parts, ", ")
}

fn render_fixed_model_array_setter_wrapper(
    class: &crate::facade::FacadeClass,
    function: &crate::ir::IrFunction,
) -> (r: String)
    requires
        crate::gotypes::receiver_bound_ok(function@),
        function.params.len() > 1,
    ensures
        r@ == array_setter_text(class@, function@),
{
    proof {
        reveal_strlit("");
    }
    let recv = crate::case::receiver_name(class.go_name.as_str());
    let params = render_param_list_dummy(function);
    assert(function@.params[1] == function.params@[1]@);
    let n = decimal_string(array_length_or_zero(function.params[1].ty.cpp_type.as_str()));
    let at = at_method_name(function);
    let v = function.params[1].name.as_str();
    let ex = crate::gotypes::go_method_export_name(function);
    let mut out = method_head_text(recv.as_str(), class.go_name.as_str(), ex.as_str(), params.as_str(), "");
    let nr = nil_receiver_text(recv.as_str(), "return");
    push_string(&mut out, &nr);
    let cc = closed_check_text(recv.as_str(), class.go_name.as_str());
    push_string(&mut out, &cc);
    push_str(&mut out, "    if len(");
    push_str(&mut out, v);
    push_str(&mut out, ") != ");
    push_string(&mut out, &n);
    push_str(&mut out, " {\n        panic(\"");
    push_string(&mut out, &class.go_name);
    push_str(&mut out, " ");
    push_string(&mut out, &ex);
    push_str(&mut out, " requires ");
    push_string(&mut out, &n);
    push_str(&mut out, " elements\")\n    }\n");
    push_str(&mut out, "    for i := range ");
    push_str(&mut out, v);
    push_str(&mut out, " {\n        ");
    push_string(&mut out, &recv);
    push_str(&mut out, ".");
    push_string(&mut out, &at);
    push_str(&mut out, "(i, ");
    push_str(&mut out, v);
    push_str(&mut out, "[i])\n    }\n");
    push_str(&mut out, "}\n");
    out
}

fn render_fixed_model_array_getter_at(
    ctx: &PipelineContext,
    class: &crate::facade::FacadeClass,
    function: &crate::ir::IrFunction,
) -> (r: String)
    requires
        crate::gotypes::receiver_bound_ok(function@),
    ensures
        r@ == array_getter_at_text(ctx@, class@, function@),
{
    let recv = crate::case::receiver_name(class.go_name.as_str());
    let g = go_model_return_type(ctx, &function.returns);
    let ptr = cast_raw_to_projection_handle(ctx, &function.returns, "raw");
    let wrap = if projection_handle(ctx, function.returns.cpp_type.as_str()).is_some() {
        cat6("newBorrowed", g.as_str(), "(", ptr.as_str(), ", ", recv.as_str())
    } else {
        cat5("&", g.as_str(), "{ptr: ", ptr.as_str(), "}")
    };
    let wrap = if projection_handle(ctx, function.returns.cpp_type.as_str()).is_some() {
        cat2(wrap.as_str(), ".root)")
    } else {
        wrap
    };
    let ex = crate::gotypes::go_method_export_name(function);
    let sig = cat2(" *", g.as_str());
    let mut out = method_head_text(recv.as_str(), class.go_name.as_str(), ex.as_str(), "index int", sig.as_str());
    let nr = nil_receiver_text(recv.as_str(), "return nil");
    push_string(&mut out, &nr);
    let cc = closed_check_text(recv.as_str(), class.go_name.as_str());
    push_string(&mut out, &cc);
    push_str(&mut out, "    raw := C.");
    push_string(&mut out, &function.name);
    push_str(&mut out, "(");
    push_string(&mut out, &recv);
    push_str(&mut out, ".ptr, C.int(index))\n    if raw == nil {\n        return nil\n    }\n    return ");
    push_string(&mut out, &wrap);
    push_str(&mut out, "\n");
    push_str(&mut out, "}\n");
    out
}

fn render_fixed_model_array_setter_at(
    ctx: &PipelineContext,
    class: &crate::facade::FacadeClass,
    function: &crate::ir::IrFunction,
    covered_handles: &Vec<String>,
    owned_opaque_value_handles: &Vec<String>,
) -> (r: String)
    requires
        crate::gotypes::receiver_bound_ok(function@),
        function.params.len() > 2,
    ensures
        r@ == array_setter_at_text(ctx@, class@, function@, strs(covered_handles@), strs(owned_opaque_value_handles@)),
{
    proof {
        reveal_strlit("");
    }
    let recv = crate::case::receiver_name(class.go_name.as_str());
    let vp = &function.params[2];
    assert(function@.params[2] == vp@);
    let g = match crate::gotypes::go_param_type(ctx, &vp.ty) {
        Some(g) => g,
        None => String::from_str("*unsafe.Pointer"),
    };
    let ex = crate::gotypes::go_method_export_name(function);
    let params = cat4("index int, ", vp.name.as_str(), " ", g.as_str());
    let mut out = method_head_text(recv.as_str(), class.go_name.as_str(), ex.as_str(), params.as_str(), "");
    let nr = nil_receiver_text(recv.as_str(), "return");
    push_string(&mut out, &nr);
    let cc = closed_check_text(recv.as_str(), class.go_name.as_str());
    push_string(&mut out, &cc);
    let lines = render_model_handle_setup(ctx, &vp.ty, vp.name.as_str(), "cArg1", covered_handles, owned_opaque_value_handles);
    let body = indented_lines(&lines);
    push_string(&mut out, &body);
    push_str(&mut out, "    C.");
    push_string(&mut out, &function.name);
    push_str(&mut out, "(");
    push_string(&mut out, &recv);
    push_str(&mut out, ".ptr, C.int(index), cArg1)\n");
    push_str(&mut out, "}\n");
    out
}

fn render_plain_method(
    ctx: &PipelineContext,
    class: &crate::facade::FacadeClass,
    function: &crate::ir::IrFunction,
    covered_handles: &Vec<String>,
    owned_opaque_value_handles: &Vec<String>,
) -> (r: String)
    requires
        method_renderable(ctx@, function@),
    ensures
        r@ == plain_method_text(ctx@, class@, function@, strs(covered_handles@), strs(owned_opaque_value_handles@)),
{
    let ghost f = function@;
    let from: usize = if function.params.len() > 0 { 1 } else { 0 };
    assert(after_receiver(f.params) =~= f.params.skip(from as int));
    let recv = crate::case::receiver_name(class.go_name.as_str());
    let cb = param_test(&function.params, 1, ParamTest::Callbacks);
    let params = render_param_list(ctx, &function.params, from);
    let prep = if cb {
        render_callback_call_prep(ctx, function, from, covered_handles, owned_opaque_value_handles)
    } else {
        proof {
            if from == 1 {
                lemma_no_callbacks_renderable(f.params, 1);
            } else {
                assert(f.params.skip(0) =~= f.params);
                lemma_no_callbacks_renderable(f.params, 0);
            }
        }
        render_call_prep(ctx, &function.params, from, covered_handles, owned_opaque_value_handles)
    };
    let mut all_args: Vec<String> = Vec::new();
    assert(views(all_args@) =~= Seq::<Seq<char>>::empty());
    push_line(&mut all_args, cat2(recv.as_str(), ".ptr"));
    let ghost head = views(all_args@);
    let mut k: usize = 0;
    while k < prep.args.len()
        invariant
            k <= prep.args.len(),
            views(all_args@) =~= head + views(prep.args@).take(k as int),
        decreases prep.args.len() - k,
    {
        push_line(&mut all_args, prep.args[k].clone());
        k = k + 1;
    }
    assert(views(prep.args@).take(k as int) =~= views(prep.args@));
    let args = crate::text::join_strings(&all_args, ", ");
    let call = if cb {
        cat5("C.", function.name.as_str(), "_bridge(", args.as_str(), ")")
    } else {
        cat5("C.", function.name.as_str(), "(", args.as_str(), ")")
    };
    let ex = crate::gotypes::go_method_export_name(function);
    let sig = render_sig_part(ctx, &function.returns);
    let mut out = method_head_text(recv.as_str(), class.go_name.as_str(), ex.as_str(), params.as_str(), sig.as_str());
    let stmt = crate::facade::go_nil_return_stmt(&function.returns);
    let nr = nil_receiver_text(recv.as_str(), stmt.as_str());
    push_string(&mut out, &nr);
    let cc = closed_check_text(recv.as_str(), class.go_name.as_str());
    push_string(&mut out, &cc);
    let setup = indented_lines(&prep.setup_lines);
    push_string(&mut out, &setup);
    let defers = indented_lines(&prep.defer_lines);
    push_string(&mut out, &defers);
    let root = cat2(recv.as_str(), ".root");
    let ret = render_go_call_return(
        ctx,
        function,
        call.as_str(),
        &prep.post_call_lines,
        Some(root),
        covered_handles,
        owned_opaque_value_handles,
    );
    push_string(&mut out, &ret);
    push_str(&mut out, "}\n");
    out
}

/// The Go method over one wrapped C method.
pub fn render_general_api_method(
    ctx: &PipelineContext,
    class: &crate::facade::FacadeClass,
    function: &crate::ir::IrFunction,
    covered_handles: &Vec<String>,
    owned_opaque_value_handles: &Vec<String>,
) -> (r: String)
    requires
        method_renderable(ctx@, function@),
    ensures
        r@ == method_text(ctx@, class@, function@, strs(covered_handles@), strs(owned_opaque_value_handles@)),
{
    proof {
        reveal(method_text);
    }
    match &function.field_accessor {
        Some(a) => {
            if a.access == crate::kind::FieldAccessKind::Get && function.returns.kind == IrTypeKind::FixedModelArray {
                return render_fixed_model_array_getter_wrapper(ctx, class, function);
            }
            if a.access == crate::kind::FieldAccessKind::Put && function.params.len() > 1
                && function.params[1].ty.kind == IrTypeKind::FixedModelArray {
                assert(function@.params[1] == function.params@[1]@);
                return render_fixed_model_array_setter_wrapper(class, function);
            }
            if a.access == crate::kind::FieldAccessKind::GetAt {
                return render_fixed_model_array_getter_at(ctx, class, function);
            }
            if a.access == crate::kind::FieldAccessKind::SetAt {
                return render_fixed_model_array_setter_at(ctx, class, function, covered_handles, owned_opaque_value_handles);
            }
            proof {
                if function@.params.len() > 1 {
                    assert(function@.params[1] == function.params@[1]@);
                }
            }
        },
        None => {},
    }
    render_plain_method(ctx, class, function, covered_handles, owned_opaque_value_handles)
}

// ---------------------------------------------------------------------------
// Class wrappers
// ---------------------------------------------------------------------------

/// A constructor: it prepares its arguments, calls the C constructor and wraps the owned
/// result; a nil result is an error.
#[verifier::opaque]
pub open spec fn constructor_text(
    ctx: PipelineContextV,
    c: crate::facade::FacadeClassV,
    f: crate::ir::IrFunctionV,
    name: Seq<char>,
    covered: Seq<Seq<char>>,
    owned: Seq<Seq<char>>,
) -> Seq<char> {
    let prep = prep_of(ctx, f.params, covered, owned);
    "func "@ + name + "("@ + param_list(ctx, f.params) + ") (*"@ + c.go_name + ", error) {\n"@ + indented(prep.setup)
        + indented(prep.defers) + "    ptr := C."@ + f.name + "("@ + join(prep.args, ", "@) + ")\n"@ + indented(prep.posts)
        + "    if ptr == nil {\n        return nil, errors.New(\"wrapper returned nil facade handle\")\n    }\n    return newOwned"@
        + c.go_name + "(ptr), nil\n}\n"@
}

pub open spec fn constructor_renderable(ctx: PipelineContextV, f: crate::ir::IrFunctionV) -> bool {
    &&& crate::gotypes::params_supported(ctx, f.params, 0)
    &&& params_renderable(f.params)
}

pub fn render_facade_constructor(
    ctx: &PipelineContext,
    class: &crate::facade::FacadeClass,
    constructor: &crate::ir::IrFunction,
    constructor_name: &str,
    covered_handles: &Vec<String>,
    owned_opaque_value_handles: &Vec<String>,
) -> (r: String)
    requires
        constructor_renderable(ctx@, constructor@),
    ensures
        r@ == constructor_text(ctx@, class@, constructor@, constructor_name@, strs(covered_handles@), strs(owned_opaque_value_handles@)),
{
    proof {
        reveal(constructor_text);
    }
    assert(constructor@.params.skip(0) =~= constructor@.params);
    let params = render_param_list(ctx, &constructor.params, 0);
    let prep = render_call_prep(ctx, &constructor.params, 0, covered_handles, owned_opaque_value_handles);
    let mut out = cat5("func ", constructor_name, "(", params.as_str(), ") (*");
    push_string(&mut out, &class.go_name);
    push_str(&mut out, ", error) {\n");
    let setup = indented_lines(&prep.setup_lines);
    push_string(&mut out, &setup);
    let defers = indented_lines(&prep.defer_lines);
    push_string(&mut out, &defers);
    push_str(&mut out, "    ptr := C.");
    push_string(&mut out, &constructor.name);
    push_str(&mut out, "(");
    let args = crate::text::join_strings(&prep.args, ", ");
    push_string(&mut out, &args);
    push_str(&mut out, ")\n");
    let posts = indented_lines(&prep.post_call_lines);
    push_string(&mut out, &posts);
    push_str(
        &mut out,
        "    if ptr == nil {\n        return nil, errors.New(\"wrapper returned nil facade handle\")\n    }\n    return newOwned",
    );
    push_string(&mut out, &class.go_name);
    push_str(&mut out, "(ptr), nil\n}\n");
    out
}

/// The Go struct of a wrapped class.
pub open spec fn class_struct_text(c: crate::facade::FacadeClassV) -> Seq<char> {
    "type "@ + c.go_name + " struct {\n    ptr *C."@ + c.handle_name + "\n    owned bool\n    root *bool\n}\n"@
}

pub fn render_facade_class(class: &crate::facade::FacadeClass) -> (r: String)
    ensures
        r@ == class_struct_text(class@),
{
    let mut out = cat5("type ", class.go_name.as_str(), " struct {\n    ptr *C.", class.handle_name.as_str(), "\n    owned bool\n    root *bool\n}\n");
    out
}

/// `Close` releases an owned wrapper once and marks its borrowers' root closed.
pub open spec fn close_text(recv: Seq<char>, go_name: Seq<char>, delete: Seq<char>) -> Seq<char> {
    "func ("@ + recv + " *"@ + go_name + ") Close() {\n    if "@ + recv + " == nil || "@ + recv
        + ".ptr == nil {\n        return\n    }\n    if !"@ + recv + ".owned {\n        return\n    }\n    if "@ + recv
        + ".root != nil {\n        *"@ + recv + ".root = true\n    }\n    C."@ + delete + "("@ + recv + ".ptr)\n    "@ + recv
        + ".ptr = nil\n}\n"@
}

fn close_exec(recv: &str, go_name: &str, delete: &str) -> (r: String)
    ensures
        r@ == close_text(recv@, go_name@, delete@),
{
    let mut out = cat7("func (", recv, " *", go_name, ") Close() {\n    if ", recv, " == nil || ");
    push_str(&mut out, recv);
    push_str(&mut out, ".ptr == nil {\n        return\n    }\n    if !");
    push_str(&mut out, recv);
    push_str(&mut out, ".owned {\n        return\n    }\n    if ");
    push_str(&mut out, recv);
    push_str(&mut out, ".root != nil {\n        *");
    push_str(&mut out, recv);
    push_str(&mut out, ".root = true\n    }\n    C.");
    push_str(&mut out, delete);
    push_str(&mut out, "(");
    push_str(&mut out, recv);
    push_str(&mut out, ".ptr)\n    ");
    push_str(&mut out, recv);
    push_str(&mut out, ".ptr = nil\n}\n");
    out
}

pub fn render_facade_close(class: &crate::facade::FacadeClass) -> (r: String)
    ensures
        r@ == close_text(crate::case::receiver(class@.go_name), class@.go_name, class@.destructor.name),
{
    let recv = crate::case::receiver_name(class.go_name.as_str());
    close_exec(recv.as_str(), class.go_name.as_str(), class.destructor.name.as_str())
}

/// `newOwned<T>` and `newBorrowed<T>` wrap a C pointer (nil stays nil); borrowing from a
/// closed root panics.
pub open spec fn helpers_text(go_name: Seq<char>, handle: Seq<char>) -> Seq<char> {
    "func newOwned"@ + go_name + "(ptr *C."@ + handle + ") *"@ + go_name
        + " {\n    if ptr == nil {\n        return nil\n    }\n    root := new(bool)\n    return &"@ + go_name
        + "{ptr: ptr, owned: true, root: root}\n}\n\nfunc newBorrowed"@ + go_name + "(ptr *C."@ + handle
        + ", root *bool) *"@ + go_name + " {\n    if ptr == nil {\n        return nil\n    }\n    if root != nil && *root {\n        panic(\""@
        + go_name + " handle is closed\")\n    }\n    return &"@ + go_name + "{ptr: ptr, root: root}\n}\n"@
}

fn helpers_exec(go_name: &str, handle: &str) -> (r: String)
    ensures
        r@ == helpers_text(go_name@, handle@),
{
    let mut out = cat6("func newOwned", go_name, "(ptr *C.", handle, ") *", go_name);
    push_str(&mut out, " {\n    if ptr == nil {\n        return nil\n    }\n    root := new(bool)\n    return &");
    push_str(&mut out, go_name);
    push_str(&mut out, "{ptr: ptr, owned: true, root: root}\n}\n\nfunc newBorrowed");
    push_str(&mut out, go_name);
    push_str(&mut out, "(ptr *C.");
    push_str(&mut out, handle);
    push_str(&mut out, ", root *bool) *");
    push_str(&mut out, go_name);
    push_str(&mut out, " {\n    if ptr == nil {\n        return nil\n    }\n    if root != nil && *root {\n        panic(\"");
    push_str(&mut out, go_name);
    push_str(&mut out, " handle is closed\")\n    }\n    return &");
    push_str(&mut out, go_name);
    push_str(&mut out, "{ptr: ptr, root: root}\n}\n");
    out
}

pub fn render_handle_helpers(class: &crate::facade::FacadeClass) -> (r: String)
    ensures
        r@ == helpers_text(class@.go_name, class@.handle_name),
{
    helpers_exec(class.go_name.as_str(), class.handle_name.as_str())
}

/// The wrapper of an opaque model value that Go owns: struct, `Close` over its deleter,
/// and the helpers, each block followed by a blank line.
pub open spec fn owned_opaque_text(go_name: Seq<char>, handle: Seq<char>) -> Seq<char> {
    "type "@ + go_name + " struct {\n    ptr *C."@ + handle + "\n    owned bool\n    root *bool\n}\n\n"@ + close_text(
        crate::case::receiver(go_name),
        go_name,
        crate::header::delete_symbol(handle),
    ) + "\n"@ + helpers_text(go_name, handle) + "\n"@
}

pub fn render_owned_opaque_wrapper(go_name: &str, handle: &str) -> (r: String)
    ensures
        r@ == owned_opaque_text(go_name@, handle@),
{
    let recv = crate::case::receiver_name(go_name);
    let del = crate::header::opaque_delete_symbol(handle);
    let mut out = cat5("type ", go_name, " struct {\n    ptr *C.", handle, "\n    owned bool\n    root *bool\n}\n\n");
    let close = close_exec(recv.as_str(), go_name, del.as_str());
    push_string(&mut out, &close);
    push_str(&mut out, "\n");
    let helpers = helpers_exec(go_name, handle);
    push_string(&mut out, &helpers);
    push_str(&mut out, "\n");
    out
}

} // verus!
