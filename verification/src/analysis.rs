//! Model projections: C++ classes whose `GetX`/`SetX` method pairs become the fields of a
//! plain Go struct.
use vstd::prelude::*;

use crate::assemble::{lemma_lex_total, lemma_lex_trans, lex_less, lex_lt, sorted_strict};
use crate::case::{go_export, go_export_name, pascal_tokens, segments, segments_vec, split_pascal_tokens_vec, vviews};
use crate::context::{enum_go_type, first_projection, lemma_first_projection_bounds, PipelineContext, PipelineContextV};
use crate::gotypes::{go_prim, go_prim_of, leaf, leaf_cpp_name, normalize_type_key_vec, or_else, type_key};
use crate::ir::{contains_str, functions_view, opt_view, strs, IrFunction, IrFunctionV, IrModule, IrType, IrTypeV};
use crate::kind::{IrFunctionKind, IrTypeKind};
use crate::naming::flatten_qualified_cpp_name;
use crate::projection::{fields_view, projections_view, ModelProjection, ModelProjectionField, ModelProjectionFieldV, ModelProjectionV};
use crate::text::{
    chars_of, eq_lit, lower_all, lower_all_vec, push_chars, push_str, push_string, remove_all,
    seq_eq, string_of, strip_prefix, strip_prefix_lit, strip_suffix, strip_suffix_lit,
};
use crate::types::{base_model, base_model_vec, fixed_array_elem_type, parse_array};

verus! {

/// The field named by a getter: `Get<X>` with a non-empty `X`, on a method with only its
/// receiver and a non-`void` return.
pub open spec fn getter_sfx(f: IrFunctionV) -> Option<Seq<char>> {
    if f.kind != IrFunctionKind::Method || f.params.len() != 1 || f.returns.kind
        == IrTypeKind::Void {
        None
    } else {
        match strip_prefix(leaf(f.cpp_name), "Get"@) {
            Some(s) => if s.len() > 0 {
                Some(s)
            } else {
                None
            },
            None => None,
        }
    }
}

/// The field named by a setter: `Set<X>` with a non-empty `X`, on a `void` method with its
/// receiver and one value parameter.
pub open spec fn setter_sfx(f: IrFunctionV) -> Option<Seq<char>> {
    if f.kind != IrFunctionKind::Method || f.params.len() != 2 || f.returns.kind
        != IrTypeKind::Void {
        None
    } else {
        match strip_prefix(leaf(f.cpp_name), "Set"@) {
            Some(s) => if s.len() > 0 {
                Some(s)
            } else {
                None
            },
            None => None,
        }
    }
}

fn accessor_suffix(function: &IrFunction, is_setter: bool) -> (r: Option<String>)
    ensures
        opt_view(r) == (if is_setter {
            setter_sfx(function@)
        } else {
            getter_sfx(function@)
        }),
{
    let params: usize = if is_setter {
        2
    } else {
        1
    };
    let void_ret = function.returns.kind == IrTypeKind::Void;
    if function.kind != IrFunctionKind::Method || function.params.len() != params || void_ret
        != is_setter {
        return None;
    }
    let name = leaf_cpp_name(function.cpp_name.as_str());
    let v = chars_of(name.as_str());
    let stripped = if is_setter {
        strip_prefix_lit(v.as_slice(), "Set")
    } else {
        strip_prefix_lit(v.as_slice(), "Get")
    };
    match stripped {
        Some(s) => if s.len() > 0 {
            Some(string_of(s.as_slice()))
        } else {
            None
        },
        None => None,
    }
}

/// The field name a getter reads, if `function` is a getter.
pub fn getter_suffix(function: &IrFunction) -> (r: Option<String>)
    ensures
        opt_view(r) == getter_sfx(function@),
{
    accessor_suffix(function, false)
}

/// The field name a setter writes, if `function` is a setter.
pub fn setter_suffix(function: &IrFunction) -> (r: Option<String>)
    ensures
        opt_view(r) == setter_sfx(function@),
{
    accessor_suffix(function, true)
}

/// A token of a field name: the acronyms `id`, `url`, `db`, `api`, `http`, `https`, `json`
/// and `xml` in any ASCII case become upper case; other tokens are kept as written.
pub open spec fn acronym(t: Seq<char>) -> Seq<char> {
    let l = lower_all(t);
    if l == "id"@ {
        "ID"@
    } else if l == "url"@ {
        "URL"@
    } else if l == "db"@ {
        "DB"@
    } else if l == "api"@ {
        "API"@
    } else if l == "http"@ {
        "HTTP"@
    } else if l == "https"@ {
        "HTTPS"@
    } else if l == "json"@ {
        "JSON"@
    } else if l == "xml"@ {
        "XML"@
    } else {
        t
    }
}

pub open spec fn acronyms(ts: Seq<Seq<char>>) -> Seq<char>
    decreases ts.len(),
{
    if ts.len() == 0 {
        seq![]
    } else {
        acronyms(ts.drop_last()) + acronym(ts.last())
    }
}

pub open spec fn field_words(segs: Seq<Seq<char>>) -> Seq<char>
    decreases segs.len(),
{
    if segs.len() == 0 {
        seq![]
    } else {
        field_words(segs.drop_last()) + acronyms(pascal_tokens(segs.last()))
    }
}

/// The Go name of a projected field: the `_`-separated parts of the accessor suffix, split
/// into Pascal-case tokens, acronyms upper-cased, joined without separator.
pub open spec fn go_field(v: Seq<char>) -> Seq<char> {
    field_words(segments(v, '_'))
}

fn acronym_of(t: &[char]) -> (r: Vec<char>)
    ensures
        r@ == acronym(t@),
{
    let l = lower_all_vec(t);
    let s = l.as_slice();
    if eq_lit(s, "id") {
        chars_of("ID")
    } else if eq_lit(s, "url") {
        chars_of("URL")
    } else if eq_lit(s, "db") {
        chars_of("DB")
    } else if eq_lit(s, "api") {
        chars_of("API")
    } else if eq_lit(s, "http") {
        chars_of("HTTP")
    } else if eq_lit(s, "https") {
        chars_of("HTTPS")
    } else if eq_lit(s, "json") {
        chars_of("JSON")
    } else if eq_lit(s, "xml") {
        chars_of("XML")
    } else {
        let mut r: Vec<char> = Vec::new();
        let mut i: usize = 0;
        while i < t.len()
            invariant
                i <= t.len(),
                r@ =~= t@.take(i as int),
            decreases t.len() - i,
        {
            r.push(t[i]);
            i = i + 1;
        }
        assert(t@.take(i as int) =~= t@);
        r
    }
}

fn push_acronyms(out: &mut String, toks: &Vec<Vec<char>>)
    ensures
        final(out)@ == old(out)@ + acronyms(vviews(toks@)),
{
    let ghost start = out@;
    let ghost ts = vviews(toks@);
    let mut i: usize = 0;
    assert(ts.take(0) =~= Seq::<Seq<char>>::empty());
    while i < toks.len()
        invariant
            i <= toks.len(),
            ts == vviews(toks@),
            out@ == start + acronyms(ts.take(i as int)),
        decreases toks.len() - i,
    {
        let a = acronym_of(toks[i].as_slice());
        push_chars(out, a.as_slice());
        assert(ts.take(i + 1).drop_last() =~= ts.take(i as int));
        i = i + 1;
    }
    assert(ts.take(i as int) =~= ts);
}

/// The Go field name for an accessor suffix.
pub fn go_field_name(value: &str) -> (r: String)
    ensures
        r@ == go_field(value@),
{
    let v = chars_of(value);
    let segs = segments_vec(v.as_slice(), '_');
    let ghost ss = vviews(segs@);
    let mut out = String::new();
    let mut i: usize = 0;
    assert(ss.take(0) =~= Seq::<Seq<char>>::empty());
    while i < segs.len()
        invariant
            i <= segs.len(),
            ss == vviews(segs@),
            out@ == field_words(ss.take(i as int)),
        decreases segs.len() - i,
    {
        let toks = split_pascal_tokens_vec(segs[i].as_slice());
        push_acronyms(&mut out, &toks);
        assert(ss.take(i + 1).drop_last() =~= ss.take(i as int));
        i = i + 1;
    }
    assert(ss.take(i as int) =~= ss);
    out
}

/// The primitive Go types of projected fields: as for the facade, but C++ `int` stays
/// Go `int`.
pub open spec fn field_prim(k: Seq<char>) -> Option<Seq<char>> {
    if k == "int"@ {
        Some("int"@)
    } else {
        go_prim(k)
    }
}

fn field_prim_of(value: &str) -> (r: Option<&'static str>)
    ensures
        match field_prim(type_key(value@)) {
            Some(v) => r is Some && r->0@ == v,
            None => r is None,
        },
{
    let v = chars_of(value);
    let k = normalize_type_key_vec(v.as_slice());
    if eq_lit(k.as_slice(), "int") {
        Some("int")
    } else {
        go_prim_of(k.as_slice())
    }
}

/// The Go type of a string, byte array, enum or primitive field.
pub open spec fn field_scalar(t: IrTypeV) -> Option<Seq<char>> {
    match t.kind {
        IrTypeKind::String => Some("string"@),
        IrTypeKind::CString => Some("string"@),
        IrTypeKind::FixedByteArray => Some("[]byte"@),
        IrTypeKind::Enum => Some("int64"@),
        IrTypeKind::Primitive => or_else(
            field_prim(type_key(t.cpp_type)),
            field_prim(type_key(t.c_type)),
        ),
        _ => None,
    }
}

fn field_scalar_of(ty: &IrType) -> (r: Option<&'static str>)
    ensures
        match field_scalar(ty@) {
            Some(v) => r is Some && r->0@ == v,
            None => r is None,
        },
{
    match ty.kind {
        IrTypeKind::String | IrTypeKind::CString => Some("string"),
        IrTypeKind::FixedByteArray => Some("[]byte"),
        IrTypeKind::Enum => Some("int64"),
        IrTypeKind::Primitive => match field_prim_of(ty.cpp_type.as_str()) {
            Some(t) => Some(t),
            None => field_prim_of(ty.c_type.as_str()),
        },
        _ => None,
    }
}

/// The Go name of a model type in a projection: a known projection's name, else the leaf
/// of its C++ name.
pub open spec fn projected_model_name(ctx: PipelineContextV, t: IrTypeV) -> Seq<char> {
    match first_projection(ctx.known_model_projections, t.cpp_type, 0) {
        Some(k) => ctx.known_model_projections[k].go_name,
        None => leaf(base_model(t.cpp_type)),
    }
}

/// The Go type of a model value in a projection.
pub fn go_model_return_type(ctx: &PipelineContext, ty: &IrType) -> (r: String)
    ensures
        r@ == projected_model_name(ctx@, ty@),
{
    proof {
        lemma_first_projection_bounds(ctx@.known_model_projections, ty@.cpp_type, 0);
    }
    match ctx.known_model_projection(ty.cpp_type.as_str()) {
        Some(p) => p.go_name.clone(),
        None => {
            let v = chars_of(ty.cpp_type.as_str());
            let b = base_model_vec(v.as_slice());
            leaf_cpp_name(string_of(b.as_slice()).as_str())
        },
    }
}

/// The Go type of a projected field, if it has one.
pub open spec fn field_type(ctx: PipelineContextV, t: IrTypeV) -> Option<Seq<char>> {
    match t.kind {
        IrTypeKind::Enum => or_else(enum_go_type(ctx.known_enum_types, t.cpp_type), field_scalar(t)),
        IrTypeKind::ModelReference => Some("*"@ + projected_model_name(ctx, t)),
        IrTypeKind::ModelPointer => Some("*"@ + projected_model_name(ctx, t)),
        IrTypeKind::ModelValue => Some("*"@ + projected_model_name(ctx, t)),
        IrTypeKind::FixedByteArray => Some("[]byte"@),
        IrTypeKind::FixedArray => match parse_array(t.cpp_type) {
            Some((e, _)) => match go_prim(type_key(e)) {
                Some(g) => Some("[]"@ + g),
                None => None,
            },
            None => None,
        },
        IrTypeKind::FixedModelArray => Some("[]*"@ + projected_model_name(ctx, t)),
        _ => field_scalar(t),
    }
}

fn prefixed(prefix: &str, s: &str) -> (r: String)
    ensures
        r@ == prefix@ + s@,
{
    let mut out = String::from_str(prefix);
    push_str(&mut out, s);
    out
}

/// The Go type of a field read or written through `ty`.
pub fn go_model_field_type(ctx: &PipelineContext, ty: &IrType) -> (r: Option<String>)
    ensures
        opt_view(r) == field_type(ctx@, ty@),
{
    match ty.kind {
        IrTypeKind::Enum => match ctx.known_enum_go_type(ty.cpp_type.as_str()) {
            Some(g) => Some(g),
            None => match field_scalar_of(ty) {
                Some(g) => Some(String::from_str(g)),
                None => None,
            },
        },
        IrTypeKind::ModelReference | IrTypeKind::ModelPointer | IrTypeKind::ModelValue => {
            let name = go_model_return_type(ctx, ty);
            Some(prefixed("*", name.as_str()))
        },
        IrTypeKind::FixedByteArray => Some(String::from_str("[]byte")),
        IrTypeKind::FixedArray => {
            let elem = match fixed_array_elem_type(ty.cpp_type.as_str()) {
                Some(e) => e,
                None => return None,
            };
            match crate::gotypes::primitive_go_type_pub(elem.as_str()) {
                Some(g) => Some(prefixed("[]", g)),
                None => None,
            }
        },
        IrTypeKind::FixedModelArray => {
            let name = go_model_return_type(ctx, ty);
            Some(prefixed("[]*", name.as_str()))
        },
        _ => match field_scalar_of(ty) {
            Some(g) => Some(String::from_str(g)),
            None => None,
        },
    }
}

/// Whether `f` is a method of the class `o`.
pub open spec fn method_of_owner(f: IrFunctionV, o: Seq<char>) -> bool {
    f.kind == IrFunctionKind::Method && f.owner_cpp_type == Some(o)
}

/// The methods of the class `o`, in declaration order.
pub open spec fn class_methods(fs: Seq<IrFunctionV>, o: Seq<char>) -> Seq<IrFunctionV>
    decreases fs.len(),
{
    if fs.len() == 0 {
        seq![]
    } else if method_of_owner(fs.last(), o) {
        class_methods(fs.drop_last(), o).push(fs.last())
    } else {
        class_methods(fs.drop_last(), o)
    }
}

/// The last function of `kind` that belongs to the class `o`.
pub open spec fn last_owned(fs: Seq<IrFunctionV>, kind: IrFunctionKind, o: Seq<char>) -> Option<
    IrFunctionV,
>
    decreases fs.len(),
{
    if fs.len() == 0 {
        None
    } else if fs.last().kind == kind && fs.last().owner_cpp_type == Some(o) {
        Some(fs.last())
    } else {
        last_owned(fs.drop_last(), kind, o)
    }
}

/// The last setter of the field `s` among `ms`.
pub open spec fn last_setter(ms: Seq<IrFunctionV>, s: Seq<char>) -> Option<IrFunctionV>
    decreases ms.len(),
{
    if ms.len() == 0 {
        None
    } else if setter_sfx(ms.last()) == Some(s) {
        Some(ms.last())
    } else {
        last_setter(ms.drop_last(), s)
    }
}

/// The fields projected from the first `n` methods of `ms`, and the field names met so
/// far: a getter whose field has a setter adds the field once, when the Go types of the
/// getter's result and of the setter's value are the same; a repeated field name is
/// skipped even where the first getter of that name added nothing.
pub open spec fn scan_fields(ctx: PipelineContextV, ms: Seq<IrFunctionV>, n: int) -> (
    Seq<ModelProjectionFieldV>,
    Seq<Seq<char>>,
)
    decreases n,
{
    if n <= 0 {
        (seq![], seq![])
    } else {
        let prev = scan_fields(ctx, ms, n - 1);
        let f = ms[n - 1];
        match getter_sfx(f) {
            None => prev,
            Some(s) => match last_setter(ms, s) {
                None => prev,
                Some(st) => if prev.1.contains(s) {
                    prev
                } else {
                    let seen = prev.1.push(s);
                    match (field_type(ctx, f.returns), field_type(ctx, st.params[1].ty)) {
                        (Some(g), Some(t)) => if g == t {
                            (
                                prev.0.push(
                                    ModelProjectionFieldV {
                                        go_name: go_field(s),
                                        go_type: g,
                                        getter_symbol: f.name,
                                        setter_symbol: st.name,
                                        return_kind: f.returns.kind,
                                    },
                                ),
                                seen,
                            )
                        } else {
                            (prev.0, seen)
                        },
                        _ => (prev.0, seen),
                    }
                },
            },
        }
    }
}

pub open spec fn projected_fields(ctx: PipelineContextV, ms: Seq<IrFunctionV>) -> Seq<
    ModelProjectionFieldV,
> {
    scan_fields(ctx, ms, ms.len() as int).0
}

pub open spec fn missing_wrapper(o: Seq<char>, what: Seq<char>) -> Seq<char> {
    "model projection `"@ + o + "` is missing a "@ + what + " wrapper"@
}

/// The handle of a projected class: the constructor's result handle, else the
/// destructor's receiver handle, else the flattened class name with `Handle`.
pub open spec fn projection_handle(o: Seq<char>, c: IrFunctionV, d: IrFunctionV) -> Seq<char> {
    match c.returns.handle {
        Some(h) => h,
        None => if d.params.len() > 0 && d.params[0].ty.handle is Some {
            d.params[0].ty.handle->0
        } else {
            remove_all(o, "::"@) + "Handle"@
        },
    }
}

pub open spec fn projection_go_name(o: Seq<char>, handle: Seq<char>) -> Seq<char> {
    match strip_suffix(handle, "Handle"@) {
        Some(b) => go_export(b),
        None => go_export(leaf(o)),
    }
}

/// The projection of the class `o`: none without projected fields; an error when the class
/// has fields but lacks a constructor or destructor wrapper.
pub open spec fn projection_of(ctx: PipelineContextV, fs: Seq<IrFunctionV>, o: Seq<char>) -> Result<
    Option<ModelProjectionV>,
    Seq<char>,
> {
    let fields = projected_fields(ctx, class_methods(fs, o));
    if fields.len() == 0 {
        Ok(None)
    } else {
        match last_owned(fs, IrFunctionKind::Constructor, o) {
            None => Err(missing_wrapper(o, "constructor"@)),
            Some(c) => match last_owned(fs, IrFunctionKind::Destructor, o) {
                None => Err(missing_wrapper(o, "destructor"@)),
                Some(d) => {
                    let h = projection_handle(o, c, d);
                    Ok(
                        Some(
                            ModelProjectionV {
                                cpp_type: o,
                                go_name: projection_go_name(o, h),
                                handle_name: h,
                                constructor_symbol: c.name,
                                destructor_symbol: d.name,
                                fields,
                            },
                        ),
                    )
                },
            },
        }
    }
}

/// The projections of the classes `owners`, in that order; the first error stops.
pub open spec fn projections_over(
    ctx: PipelineContextV,
    fs: Seq<IrFunctionV>,
    owners: Seq<Seq<char>>,
) -> Result<Seq<ModelProjectionV>, Seq<char>>
    decreases owners.len(),
{
    if owners.len() == 0 {
        Ok(seq![])
    } else {
        match projections_over(ctx, fs, owners.drop_last()) {
            Err(e) => Err(e),
            Ok(ps) => match projection_of(ctx, fs, owners.last()) {
                Err(e) => Err(e),
                Ok(None) => Ok(ps),
                Ok(Some(p)) => Ok(ps.push(p)),
            },
        }
    }
}

/// Whether some method in `fs` belongs to the class `o`.
pub open spec fn owns_methods(fs: Seq<IrFunctionV>, o: Seq<char>) -> bool {
    exists|i: int| 0 <= i < fs.len() && method_of_owner(fs[i], o)
}

/// `owners` lists each class with methods once, in ascending order.
pub open spec fn owner_order(fs: Seq<IrFunctionV>, owners: Seq<Seq<char>>) -> bool {
    &&& sorted_strict(owners)
    &&& forall|o: Seq<char>| owners.contains(o) <==> owns_methods(fs, o)
}

pub open spec fn projections_result(r: Result<Vec<ModelProjection>, String>) -> Result<
    Seq<ModelProjectionV>,
    Seq<char>,
> {
    match r {
        Ok(v) => Ok(projections_view(v@)),
        Err(e) => Err(e@),
    }
}

/// Inserts `x` into the ascending list `v` unless it is there already.
pub fn insert_sorted(v: &mut Vec<String>, x: &String)
    requires
        sorted_strict(strs(old(v)@)),
    ensures
        sorted_strict(strs(final(v)@)),
        forall|y: Seq<char>| strs(final(v)@).contains(y) <==> (strs(old(v)@).contains(y) || y == x@),
{
    let ghost s0 = strs(v@);
    let xv = chars_of(x.as_str());
    let mut j: usize = 0;
    while j < v.len()
        invariant
            j <= v.len(),
            s0 == strs(v@),
            xv@ == x@,
            forall|k: int| 0 <= k < j ==> lex_lt(s0[k], x@),
        ensures
            j <= v.len(),
            s0 == strs(v@),
            forall|k: int| 0 <= k < j ==> lex_lt(s0[k], x@),
            j < v.len() ==> !lex_lt(s0[j as int], x@),
        decreases v.len() - j,
    {
        let c = chars_of(v[j].as_str());
        assert(s0[j as int] == c@);
        if !lex_less(c.as_slice(), xv.as_slice()) {
            break;
        }
        j = j + 1;
    }
    if j < v.len() {
        let c = chars_of(v[j].as_str());
        assert(s0[j as int] == c@);
        if seq_eq(c.as_slice(), xv.as_slice()) {
            return;
        }
        proof {
            lemma_lex_total(s0[j as int], x@);
            assert(lex_lt(x@, s0[j as int]));
        }
    }
    v.insert(j, x.clone());
    proof {
        let s1 = strs(v@);
        assert(s1 =~= s0.insert(j as int, x@));
        assert forall|a: int, b: int| 0 <= a < b < s1.len() implies lex_lt(s1[a], s1[b]) by {
            if b < j {
            } else if b == j {
            } else if a < j {
                if b - 1 > j {
                    lemma_lex_trans(x@, s0[j as int], s0[b - 1]);
                }
                lemma_lex_trans(s0[a], x@, s0[b - 1]);
            } else if a == j {
                if b - 1 > j {
                    lemma_lex_trans(x@, s0[j as int], s0[b - 1]);
                }
            } else {
            }
        }
        assert forall|y: Seq<char>| s1.contains(y) <==> (s0.contains(y) || y == x@) by {
            if s1.contains(y) {
                let k = choose|k: int| 0 <= k < s1.len() && s1[k] == y;
                if k < j {
                    assert(s0[k] == y);
                } else if k > j {
                    assert(s0[k - 1] == y);
                }
            }
            if s0.contains(y) {
                let k = choose|k: int| 0 <= k < s0.len() && s0[k] == y;
                if k < j {
                    assert(s1[k] == y);
                } else {
                    assert(s1[k + 1] == y);
                }
            }
            if y == x@ {
                assert(s1[j as int] == y);
            }
        }
    }
}

/// The classes that have methods, each once, in ascending order.
fn method_owners(functions: &Vec<IrFunction>) -> (r: Vec<String>)
    ensures
        owner_order(functions_view(functions@), strs(r@)),
{
    let ghost fs = functions_view(functions@);
    let mut owners: Vec<String> = Vec::new();
    let mut i: usize = 0;
    while i < functions.len()
        invariant
            i <= functions.len(),
            fs == functions_view(functions@),
            sorted_strict(strs(owners@)),
            forall|o: Seq<char>| strs(owners@).contains(o) <==> owns_methods(fs.take(i as int), o),
        decreases functions.len() - i,
    {
        let f = &functions[i];
        assert(fs[i as int] == f@);
        let ghost before = strs(owners@);
        if f.kind == IrFunctionKind::Method {
            match &f.owner_cpp_type {
                Some(o) => insert_sorted(&mut owners, o),
                None => {},
            }
        }
        proof {
            let t1 = fs.take(i + 1);
            let t0 = fs.take(i as int);
            assert forall|o: Seq<char>| owns_methods(t1, o) <==> (owns_methods(t0, o)
                || method_of_owner(fs[i as int], o)) by {
                if owns_methods(t1, o) {
                    let k = choose|k: int| 0 <= k < t1.len() && method_of_owner(t1[k], o);
                    if k < i {
                        assert(t0[k] == t1[k]);
                    }
                }
                if owns_methods(t0, o) {
                    let k = choose|k: int| 0 <= k < t0.len() && method_of_owner(t0[k], o);
                    assert(t1[k] == t0[k]);
                }
                if method_of_owner(fs[i as int], o) {
                    assert(t1[i as int] == fs[i as int]);
                }
            }
        }
        i = i + 1;
    }
    assert(fs.take(i as int) =~= fs);
    owners
}

pub open spec fn picked(fs: Seq<IrFunctionV>, idx: Seq<usize>) -> Seq<IrFunctionV> {
    idx.map_values(|j: usize| fs[j as int])
}

/// The positions of the methods of the class `o`.
fn class_method_indices(functions: &Vec<IrFunction>, o: &String) -> (r: Vec<usize>)
    ensures
        forall|k: int| 0 <= k < r@.len() ==> r@[k] < functions@.len(),
        picked(functions_view(functions@), r@) == class_methods(functions_view(functions@), o@),
{
    let ghost fs = functions_view(functions@);
    let ov = chars_of(o.as_str());
    let mut idx: Vec<usize> = Vec::new();
    let mut i: usize = 0;
    while i < functions.len()
        invariant
            i <= functions.len(),
            fs == functions_view(functions@),
            ov@ == o@,
            forall|k: int| 0 <= k < idx@.len() ==> idx@[k] < i,
            picked(fs, idx@) == class_methods(fs.take(i as int), o@),
        decreases functions.len() - i,
    {
        let f = &functions[i];
        assert(fs[i as int] == f@);
        assert(fs.take(i + 1).drop_last() =~= fs.take(i as int));
        let ghost before = idx@;
        let mut hit = false;
        if f.kind == IrFunctionKind::Method {
            match &f.owner_cpp_type {
                Some(w) => {
                    let wv = chars_of(w.as_str());
                    hit = seq_eq(wv.as_slice(), ov.as_slice());
                },
                None => {},
            }
        }
        assert(hit == method_of_owner(fs[i as int], o@));
        if hit {
            idx.push(i);
            assert(picked(fs, idx@) =~= picked(fs, before).push(fs[i as int]));
        }
        i = i + 1;
    }
    assert(fs.take(i as int) =~= fs);
    idx
}

/// The position of the last function of `kind` that belongs to the class `o`.
fn last_owned_index(functions: &Vec<IrFunction>, kind: IrFunctionKind, o: &String) -> (r: Option<
    usize,
>)
    ensures
        match last_owned(functions_view(functions@), kind, o@) {
            Some(f) => r is Some && r->0 < functions@.len() && functions@[r->0 as int]@ == f,
            None => r is None,
        },
{
    let ghost fs = functions_view(functions@);
    let ov = chars_of(o.as_str());
    let mut found: Option<usize> = None;
    let mut i: usize = 0;
    while i < functions.len()
        invariant
            i <= functions.len(),
            fs == functions_view(functions@),
            ov@ == o@,
            match last_owned(fs.take(i as int), kind, o@) {
                Some(f) => found is Some && found->0 < i && fs[found->0 as int] == f,
                None => found is None,
            },
        decreases functions.len() - i,
    {
        let f = &functions[i];
        assert(fs[i as int] == f@);
        assert(fs.take(i + 1).drop_last() =~= fs.take(i as int));
        let mut hit = false;
        if f.kind == kind {
            match &f.owner_cpp_type {
                Some(w) => {
                    let wv = chars_of(w.as_str());
                    hit = seq_eq(wv.as_slice(), ov.as_slice());
                },
                None => {},
            }
        }
        if hit {
            found = Some(i);
        }
        i = i + 1;
    }
    assert(fs.take(i as int) =~= fs);
    found
}

/// The position of the last setter of the field `s` among the picked methods.
fn last_setter_index(functions: &Vec<IrFunction>, idx: &Vec<usize>, s: &String) -> (r: Option<
    usize,
>)
    requires
        forall|k: int| 0 <= k < idx@.len() ==> idx@[k] < functions@.len(),
    ensures
        match last_setter(picked(functions_view(functions@), idx@), s@) {
            Some(f) => r is Some && r->0 < functions@.len() && functions@[r->0 as int]@ == f,
            None => r is None,
        },
{
    let ghost fs = functions_view(functions@);
    let ghost ms = picked(fs, idx@);
    let sv = chars_of(s.as_str());
    let mut found: Option<usize> = None;
    let mut k: usize = 0;
    while k < idx.len()
        invariant
            k <= idx.len(),
            fs == functions_view(functions@),
            ms == picked(fs, idx@),
            sv@ == s@,
            forall|q: int| 0 <= q < idx@.len() ==> idx@[q] < functions@.len(),
            match last_setter(ms.take(k as int), s@) {
                Some(f) => found is Some && found->0 < functions@.len() && fs[found->0 as int]
                    == f,
                None => found is None,
            },
        decreases idx.len() - k,
    {
        let j = idx[k];
        let f = &functions[j];
        assert(ms[k as int] == f@);
        assert(ms.take(k + 1).drop_last() =~= ms.take(k as int));
        match setter_suffix(f) {
            Some(t) => {
                let tv = chars_of(t.as_str());
                if seq_eq(tv.as_slice(), sv.as_slice()) {
                    found = Some(j);
                }
            },
            None => {},
        }
        k = k + 1;
    }
    assert(ms.take(k as int) =~= ms);
    found
}

proof fn lemma_last_setter_sets(ms: Seq<IrFunctionV>, s: Seq<char>)
    ensures
        last_setter(ms, s) matches Some(f) ==> setter_sfx(f) == Some(s),
    decreases ms.len(),
{
    if ms.len() > 0 && setter_sfx(ms.last()) != Some(s) {
        lemma_last_setter_sets(ms.drop_last(), s);
    }
}

/// The fields projected from the picked methods of one class.
fn scan_projected_fields(ctx: &PipelineContext, functions: &Vec<IrFunction>, idx: &Vec<usize>) -> (r:
    Vec<ModelProjectionField>)
    requires
        forall|k: int| 0 <= k < idx@.len() ==> idx@[k] < functions@.len(),
    ensures
        fields_view(r@) == projected_fields(ctx@, picked(functions_view(functions@), idx@)),
{
    let ghost fs = functions_view(functions@);
    let ghost ms = picked(fs, idx@);
    let mut fields: Vec<ModelProjectionField> = Vec::new();
    let mut seen: Vec<String> = Vec::new();
    let mut k: usize = 0;
    while k < idx.len()
        invariant
            k <= idx.len(),
            fs == functions_view(functions@),
            ms == picked(fs, idx@),
            forall|q: int| 0 <= q < idx@.len() ==> idx@[q] < functions@.len(),
            (fields_view(fields@), strs(seen@)) == scan_fields(ctx@, ms, k as int),
        decreases idx.len() - k,
    {
        let f = &functions[idx[k]];
        assert(ms[k as int] == f@);
        let s = match getter_suffix(f) {
            Some(s) => s,
            None => {
                k = k + 1;
                continue ;
            },
        };
        proof {
            lemma_last_setter_sets(ms, s@);
        }
        let j = match last_setter_index(functions, idx, &s) {
            Some(j) => j,
            None => {
                k = k + 1;
                continue ;
            },
        };
        let sv = chars_of(s.as_str());
        if contains_str(&seen, sv.as_slice()) {
            k = k + 1;
            continue ;
        }
        let ghost before_seen = strs(seen@);
        seen.push(s.clone());
        assert(strs(seen@) =~= before_seen.push(s@));
        let setter = &functions[j];
        assert(setter@.params.len() == 2);
        let getter_ty = go_model_field_type(ctx, &f.returns);
        let setter_ty = go_model_field_type(ctx, &setter.params[1].ty);
        match (getter_ty, setter_ty) {
            (Some(g), Some(t)) => {
                let gv = chars_of(g.as_str());
                let tv = chars_of(t.as_str());
                if seq_eq(gv.as_slice(), tv.as_slice()) {
                    let field = ModelProjectionField {
                        go_name: go_field_name(s.as_str()),
                        go_type: g,
                        getter_symbol: f.name.clone(),
                        setter_symbol: setter.name.clone(),
                        return_kind: f.returns.kind,
                    };
                    let ghost before = fields_view(fields@);
                    fields.push(field);
                    assert(fields_view(fields@) =~= before.push(field@));
                }
            },
            _ => {},
        }
        k = k + 1;
    }
    fields
}

fn missing_wrapper_message(owner: &String, what: &str) -> (r: String)
    ensures
        r@ == missing_wrapper(owner@, what@),
{
    let mut out = String::from_str("model projection `");
    push_string(&mut out, owner);
    push_str(&mut out, "` is missing a ");
    push_str(&mut out, what);
    push_str(&mut out, " wrapper");
    out
}

/// The projection of one class from its picked methods and its constructor and
/// destructor wrappers.
fn build_model_projection(
    ctx: &PipelineContext,
    owner: &String,
    functions: &Vec<IrFunction>,
    idx: &Vec<usize>,
    constructor: Option<usize>,
    destructor: Option<usize>,
) -> (r: Result<Option<ModelProjection>, String>)
    requires
        forall|k: int| 0 <= k < idx@.len() ==> idx@[k] < functions@.len(),
        picked(functions_view(functions@), idx@) == class_methods(
            functions_view(functions@),
            owner@,
        ),
        match last_owned(functions_view(functions@), IrFunctionKind::Constructor, owner@) {
            Some(f) => constructor is Some && constructor->0 < functions@.len()
                && functions@[constructor->0 as int]@ == f,
            None => constructor is None,
        },
        match last_owned(functions_view(functions@), IrFunctionKind::Destructor, owner@) {
            Some(f) => destructor is Some && destructor->0 < functions@.len()
                && functions@[destructor->0 as int]@ == f,
            None => destructor is None,
        },
    ensures
        match r {
            Ok(Some(p)) => projection_of(ctx@, functions_view(functions@), owner@) == Ok::<
                Option<ModelProjectionV>,
                Seq<char>,
            >(Some(p@)),
            Ok(None) => projection_of(ctx@, functions_view(functions@), owner@) == Ok::<
                Option<ModelProjectionV>,
                Seq<char>,
            >(None),
            Err(e) => projection_of(ctx@, functions_view(functions@), owner@) == Err::<
                Option<ModelProjectionV>,
                Seq<char>,
            >(e@),
        },
{
    let fields = scan_projected_fields(ctx, functions, idx);
    if fields.len() == 0 {
        return Ok(None);
    }
    let ci = match constructor {
        Some(ci) => ci,
        None => {
            let m = missing_wrapper_message(owner, "constructor");
            return Err(m);
        },
    };
    let di = match destructor {
        Some(di) => di,
        None => {
            let m = missing_wrapper_message(owner, "destructor");
            return Err(m);
        },
    };
    let c = &functions[ci];
    let d = &functions[di];
    let mut fallback = flatten_qualified_cpp_name(owner.as_str());
    push_str(&mut fallback, "Handle");
    let handle = match &c.returns.handle {
        Some(h) => h.clone(),
        None => if d.params.len() > 0 {
            match &d.params[0].ty.handle {
                Some(h) => h.clone(),
                None => fallback,
            }
        } else {
            fallback
        },
    };
    let hv = chars_of(handle.as_str());
    let go_name = match strip_suffix_lit(hv.as_slice(), "Handle") {
        Some(b) => go_export_name(string_of(b.as_slice()).as_str()),
        None => go_export_name(leaf_cpp_name(owner.as_str()).as_str()),
    };
    let p = ModelProjection {
        cpp_type: owner.clone(),
        go_name,
        handle_name: handle,
        constructor_symbol: c.name.clone(),
        destructor_symbol: d.name.clone(),
        fields,
    };
    Ok(Some(p))
}

proof fn lemma_projections_err_stays(
    ctx: PipelineContextV,
    fs: Seq<IrFunctionV>,
    owners: Seq<Seq<char>>,
    m: int,
    n: int,
)
    requires
        0 <= m <= n <= owners.len(),
        projections_over(ctx, fs, owners.take(m)) is Err,
    ensures
        projections_over(ctx, fs, owners.take(n)) == projections_over(ctx, fs, owners.take(m)),
    decreases n - m,
{
    if n > m {
        lemma_projections_err_stays(ctx, fs, owners, m, n - 1);
        assert(owners.take(n).drop_last() =~= owners.take(n - 1));
    }
}

/// The projections of all classes with methods, by ascending class name.
fn build_all_model_projections(ctx: &PipelineContext, ir: &IrModule) -> (r: Result<
    Vec<ModelProjection>,
    String,
>)
    ensures
        exists|owners: Seq<Seq<char>>|
            owner_order(functions_view(ir.functions@), owners) && projections_result(r)
                == projections_over(ctx@, functions_view(ir.functions@), owners),
{
    let ghost fs = functions_view(ir.functions@);
    let owners = method_owners(&ir.functions);
    let ghost os = strs(owners@);
    let mut out: Vec<ModelProjection> = Vec::new();
    let mut k: usize = 0;
    assert(os.take(0) =~= Seq::<Seq<char>>::empty());
    assert(projections_view(out@) =~= Seq::<ModelProjectionV>::empty());
    while k < owners.len()
        invariant
            k <= owners.len(),
            fs == functions_view(ir.functions@),
            os == strs(owners@),
            owner_order(fs, os),
            projections_over(ctx@, fs, os.take(k as int)) == Ok::<
                Seq<ModelProjectionV>,
                Seq<char>,
            >(projections_view(out@)),
        decreases owners.len() - k,
    {
        let o = &owners[k];
        assert(os[k as int] == o@);
        assert(os.take(k + 1).drop_last() =~= os.take(k as int));
        assert(os.take(k + 1).last() == o@);
        let idx = class_method_indices(&ir.functions, o);
        let c = last_owned_index(&ir.functions, IrFunctionKind::Constructor, o);
        let d = last_owned_index(&ir.functions, IrFunctionKind::Destructor, o);
        match build_model_projection(ctx, o, &ir.functions, &idx, c, d) {
            Err(e) => {
                proof {
                    lemma_projections_err_stays(ctx@, fs, os, k + 1, os.len() as int);
                    assert(os.take(os.len() as int) =~= os);
                }
                return Err(e);
            },
            Ok(None) => {},
            Ok(Some(p)) => {
                let ghost before = projections_view(out@);
                out.push(p);
                assert(projections_view(out@) =~= before.push(p@));
            },
        }
        k = k + 1;
    }
    assert(os.take(k as int) =~= os);
    Ok(out)
}

/// The model projections of a normalized module: every class with a getter/setter pair
/// of the same Go type becomes a Go struct with one field per pair.
pub fn collect_known_model_projections(ctx: &PipelineContext, ir: &IrModule) -> (r: Result<
    Vec<ModelProjection>,
    String,
>)
    ensures
        exists|owners: Seq<Seq<char>>|
            owner_order(functions_view(ir.functions@), owners) && projections_result(r)
                == projections_over(ctx@, functions_view(ir.functions@), owners),
{
    build_all_model_projections(ctx, ir)
}

} // verus!
