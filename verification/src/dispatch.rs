//! Overload dispatchers of the Go facade: one variadic Go function per overloaded C++ name
//! that picks the overload by the dynamic types of its arguments.
use vstd::prelude::*;

use crate::assemble::{lex_lt, sorted_strict};
use crate::calls::{
    after_receiver, cat2, cat3, cat4, cat5, cat6, cat7, push_line, ReturnMode,
};
use crate::case::go_export;
use crate::context::{PipelineContext, PipelineContextV};
use crate::facade::return_sig;
use crate::gotypes::{facade_export, go_param, go_value, leaf, raw_suffixed, receiver_bound_ok, zero_value};
use crate::ir::{functions_view, opt_view, params_view, strs, IrFunction, IrFunctionV, IrParam, IrParamV};
use crate::kind::IrTypeKind;
use crate::calls::param_renderable;
use crate::text::{decimal, join, push_str, push_string, views};

verus! {

/// The parameters a dispatcher matches on: all but the receiver of a method.
pub open spec fn disp_params(f: IrFunctionV) -> Seq<IrParamV> {
    if f.method_of is Some {
        after_receiver(f.params)
    } else {
        f.params
    }
}

pub fn dispatcher_param_start(function: &IrFunction) -> (r: usize)
    ensures
        r <= function.params.len(),
        disp_params(function@) == function@.params.skip(r as int),
        r <= 1,
{
    if function.method_of.is_some() && function.params.len() > 0 {
        1
    } else {
        assert(function@.params.skip(0) =~= function@.params);
        0
    }
}

/// A dispatcher's results: the direct ones with an `error` added.
pub open spec fn disp_ret(sig: Seq<char>) -> Option<Seq<char>> {
    if sig.len() == 0 {
        Some("error"@)
    } else if crate::text::contains_seq(sig, "error"@) {
        Some(sig)
    } else if crate::text::starts_with(sig, "("@) {
        None
    } else {
        Some("("@ + sig + ", error)"@)
    }
}

pub fn dispatcher_return_sig(direct: &str) -> (r: Option<String>)
    ensures
        opt_view(r) == disp_ret(direct@),
{
    let v = crate::text::chars_of(direct);
    if v.len() == 0 {
        Some(String::from_str("error"))
    } else if crate::text::contains_lit(v.as_slice(), "error") {
        Some(String::from_str(direct))
    } else if crate::text::starts_with_lit(v.as_slice(), "(") {
        None
    } else {
        Some(cat3("(", direct, ", error)"))
    }
}

/// The Go types a dispatcher tests the arguments against.
pub open spec fn key_ok(ctx: PipelineContextV, f: IrFunctionV) -> bool {
    forall|k: int| 0 <= k < disp_params(f).len() ==> #[trigger] go_param(ctx, disp_params(f)[k].ty) is Some
}

pub open spec fn param_types(ctx: PipelineContextV, f: IrFunctionV) -> Seq<Seq<char>> {
    disp_params(f).map_values(|p: IrParamV| go_param(ctx, p.ty)->0)
}

/// A group of overloads can share a dispatcher when every overload's argument types are
/// known, all return the same, the result can carry an error, and no two take the same
/// argument types.
pub open spec fn group_safe(ctx: PipelineContextV, g: Seq<IrFunctionV>) -> bool {
    &&& forall|k: int| 0 <= k < g.len() ==> #[trigger] key_ok(ctx, g[k])
    &&& forall|k: int| 0 <= k < g.len() ==> #[trigger] disp_ret(return_sig(ctx, g[k].returns)) is Some
    &&& forall|k: int| 0 <= k < g.len() ==> #[trigger] return_sig(ctx, g[k].returns) == return_sig(ctx, g[0].returns)
    &&& forall|a: int, b: int| 0 <= a < b < g.len() ==> param_types(ctx, #[trigger] g[a]) != param_types(ctx, #[trigger] g[b])
}

#[verifier::rlimit(40)]
fn param_types_of(ctx: &PipelineContext, function: &IrFunction) -> (r: Option<Vec<String>>)
    ensures
        match r {
            Some(v) => key_ok(ctx@, function@) && strs(v@) == param_types(ctx@, function@),
            None => !key_ok(ctx@, function@),
        },
{
    let from = dispatcher_param_start(function);
    let ghost ps = disp_params(function@);
    let mut out: Vec<String> = Vec::new();
    let mut i: usize = from;
    while i < function.params.len()
        invariant
            from <= i <= function.params.len(),
            ps == function@.params.skip(from as int),
            ps == disp_params(function@),
            strs(out@) =~= ps.take(i - from).map_values(|p: IrParamV| go_param(ctx@, p.ty)->0),
            forall|k: int| 0 <= k < i - from ==> #[trigger] go_param(ctx@, ps[k].ty) is Some,
        decreases function.params.len() - i,
    {
        assert(ps[i - from] == function.params@[i as int]@);
        match crate::gotypes::go_param_type(ctx, &function.params[i].ty) {
            Some(g) => {
                let ghost before = strs(out@);
                out.push(g);
                assert(strs(out@) =~= before.push(go_param(ctx@, ps[i - from].ty)->0));
            },
            None => {
                assert(!(go_param(ctx@, disp_params(function@)[i - from].ty) is Some));
                return None;
            },
        }
        i = i + 1;
    }
    assert(ps.take(i - from) =~= ps);
    Some(out)
}

fn key_seen(keys: &Vec<Vec<String>>, key: &Vec<String>) -> (b: bool)
    ensures
        b == exists|w: int| 0 <= w < keys@.len() && #[trigger] strs(keys@[w]@) == strs(key@),
{
    let mut j: usize = 0;
    while j < keys.len()
        invariant
            j <= keys.len(),
            forall|w: int| 0 <= w < j ==> #[trigger] strs(keys@[w]@) != strs(key@),
        decreases keys.len() - j,
    {
        if strings_eq(&keys[j], key) {
            assert(strs(keys@[j as int]@) == strs(key@));
            return true;
        }
        j = j + 1;
    }
    false
}

fn strings_eq(a: &Vec<String>, b: &Vec<String>) -> (r: bool)
    ensures
        r == (strs(a@) == strs(b@)),
{
    if a.len() != b.len() {
        assert(strs(a@).len() != strs(b@).len());
        return false;
    }
    let mut i: usize = 0;
    while i < a.len()
        invariant
            i <= a.len() == b.len(),
            forall|k: int| 0 <= k < i ==> #[trigger] strs(a@)[k] == strs(b@)[k],
        decreases a.len() - i,
    {
        if !crate::text::str_eq(a[i].as_str(), b[i].as_str()) {
            assert(strs(a@)[i as int] != strs(b@)[i as int]);
            return false;
        }
        i = i + 1;
    }
    assert(strs(a@) =~= strs(b@));
    true
}

pub fn dispatcher_group_is_safe(ctx: &PipelineContext, functions: &Vec<IrFunction>) -> (b: bool)
    ensures
        b == group_safe(ctx@, functions_view(functions@)),
{
    let ghost g = functions_view(functions@);
    let mut keys: Vec<Vec<String>> = Vec::new();
    let mut first_sig: Option<String> = None;
    let mut i: usize = 0;
    while i < functions.len()
        invariant
            i <= functions.len(),
            g == functions_view(functions@),
            keys@.len() == i,
            forall|k: int| 0 <= k < i ==> #[trigger] key_ok(ctx@, g[k]),
            forall|k: int| 0 <= k < i ==> #[trigger] strs(keys@[k]@) == param_types(ctx@, g[k]),
            forall|k: int| 0 <= k < i ==> #[trigger] disp_ret(return_sig(ctx@, g[k].returns)) is Some,
            first_sig is Some <==> i > 0,
            i > 0 ==> first_sig->0@ == return_sig(ctx@, g[0].returns),
            forall|k: int| 0 <= k < i ==> #[trigger] return_sig(ctx@, g[k].returns) == return_sig(ctx@, g[0].returns),
            forall|a: int, c: int| 0 <= a < c < i ==> param_types(ctx@, #[trigger] g[a]) != param_types(ctx@, #[trigger] g[c]),
        decreases functions.len() - i,
    {
        let f = &functions[i];
        assert(g[i as int] == f@);
        assert(g[i as int].returns == f.returns@);
        let key = match param_types_of(ctx, f) {
            Some(k) => k,
            None => {
                assert(!key_ok(ctx@, g[i as int]));
                return false;
            },
        };
        let sig = crate::facade::go_return_sig(ctx, &f.returns);
        if dispatcher_return_sig(sig.as_str()).is_none() {
            assert(!(disp_ret(return_sig(ctx@, g[i as int].returns)) is Some));
            return false;
        }
        match &first_sig {
            Some(s) => {
                if !crate::text::str_eq(s.as_str(), sig.as_str()) {
                    assert(return_sig(ctx@, g[i as int].returns) != return_sig(ctx@, g[0].returns));
                    return false;
                }
            },
            None => {},
        }
        if first_sig.is_none() {
            first_sig = Some(sig);
        }
        if key_seen(&keys, &key) {
            proof {
                let w = choose|w: int| 0 <= w < keys@.len() && #[trigger] strs(keys@[w]@) == strs(key@);
                assert(strs(keys@[w]@) == param_types(ctx@, g[w]));
                assert(param_types(ctx@, g[w]) == param_types(ctx@, g[i as int]));
            }
            return false;
        }
        proof {
            assert forall|a: int| 0 <= a < i implies param_types(ctx@, #[trigger] g[a]) != param_types(ctx@, g[i as int]) by {
                assert(strs(keys@[a]@) == param_types(ctx@, g[a]));
                assert(strs(keys@[a]@) != strs(key@));
            }
        }
        let ghost old_keys = keys@;
        let ghost kv = strs(key@);
        keys.push(key);
        proof {
            assert(keys@ == old_keys.push(key));
            assert forall|k: int| 0 <= k < i + 1 implies #[trigger] strs(keys@[k]@) == param_types(ctx@, g[k]) by {
                if k < i {
                    assert(keys@[k] == old_keys[k]);
                    assert(strs(old_keys[k]@) == param_types(ctx@, g[k]));
                } else {
                    assert(keys@[k] == key);
                }
            }
        }
        i = i + 1;
    }
    true
}

/// The zero results before the error of a failing dispatcher.
pub open spec fn disp_zero(ctx: PipelineContextV, f: IrFunctionV) -> Option<Seq<char>> {
    match f.returns.kind {
        IrTypeKind::Void => Some(seq![]),
        IrTypeKind::String | IrTypeKind::CString => Some("\"\", "@),
        IrTypeKind::FixedByteArray | IrTypeKind::FixedArray | IrTypeKind::FixedModelArray => Some("nil, "@),
        _ => {
            let sig = return_sig(ctx, f.returns);
            if crate::text::starts_with(sig, "*"@) || sig == "unsafe.Pointer"@ {
                Some("nil, "@)
            } else {
                match go_value(ctx, f.returns) {
                    Some(g) => Some(zero_value(g) + ", "@),
                    None => None,
                }
            }
        },
    }
}

pub fn dispatcher_zero_return(ctx: &PipelineContext, function: &IrFunction) -> (r: Option<String>)
    ensures
        opt_view(r) == disp_zero(ctx@, function@),
{
    match function.returns.kind {
        IrTypeKind::Void => {
            return Some(String::new());
        },
        IrTypeKind::String | IrTypeKind::CString => {
            return Some(String::from_str("\"\", "));
        },
        IrTypeKind::FixedByteArray | IrTypeKind::FixedArray | IrTypeKind::FixedModelArray => {
            return Some(String::from_str("nil, "));
        },
        _ => {},
    }
    let sig = crate::facade::go_return_sig(ctx, &function.returns);
    let v = crate::text::chars_of(sig.as_str());
    if crate::text::starts_with_lit(v.as_slice(), "*") || crate::text::str_eq(sig.as_str(), "unsafe.Pointer") {
        Some(String::from_str("nil, "))
    } else {
        match crate::gotypes::go_value_type(ctx, &function.returns) {
            Some(g) => Some(cat2(crate::gotypes::zero_value_for_go_type(g.as_str()), ", ")),
            None => None,
        }
    }
}

/// `return <zeros>fmt.Errorf("<message>")`.
pub open spec fn error_return(ctx: PipelineContextV, f: IrFunctionV, message: Seq<char>) -> Seq<char> {
    "return "@ + (match disp_zero(ctx, f) {
        Some(z) => z,
        None => seq![],
    }) + "fmt.Errorf(\""@ + message + "\")"@
}

pub fn dispatcher_error_return(ctx: &PipelineContext, function: &IrFunction, message: &str) -> (r: String)
    ensures
        r@ == error_return(ctx@, function@, message@),
{
    let zero = match dispatcher_zero_return(ctx, function) {
        Some(z) => z,
        None => String::new(),
    };
    cat5("return ", zero.as_str(), "fmt.Errorf(\"", message, "\")")
}

// ---------------------------------------------------------------------------
// Dispatcher groups
// ---------------------------------------------------------------------------

/// One dispatcher: its Go name and its overloads in the string order of their own Go names.
pub struct OverloadDispatcher {
    pub export_name: String,
    pub functions: Vec<IrFunction>,
}

pub struct DispatcherV {
    pub export_name: Seq<char>,
    pub functions: Seq<IrFunctionV>,
}

impl View for OverloadDispatcher {
    type V = DispatcherV;

    open spec fn view(&self) -> DispatcherV {
        DispatcherV { export_name: self.export_name@, functions: functions_view(self.functions@) }
    }
}

pub open spec fn dispatchers_view(v: Seq<OverloadDispatcher>) -> Seq<DispatcherV> {
    v.map_values(|d: OverloadDispatcher| d@)
}

/// The name of the dispatcher over a C++ name's overloads: that name, exported.
pub open spec fn disp_export(f: IrFunctionV) -> Seq<char> {
    go_export(leaf(f.cpp_name))
}

pub open spec fn in_group(f: IrFunctionV, e: Seq<char>) -> bool {
    raw_suffixed(f) && disp_export(f) == e
}

/// The overloads named `e` that carry an overload suffix, in order.
pub open spec fn group_of(fs: Seq<IrFunctionV>, e: Seq<char>) -> Seq<IrFunctionV>
    decreases fs.len(),
{
    if fs.len() == 0 {
        seq![]
    } else if in_group(fs.last(), e) {
        group_of(fs.drop_last(), e).push(fs.last())
    } else {
        group_of(fs.drop_last(), e)
    }
}

/// `s` holds the functions of `g` in the string order of their Go names.
pub open spec fn sorted_by_export(s: Seq<IrFunctionV>, g: Seq<IrFunctionV>) -> bool {
    &&& s.len() == g.len()
    &&& forall|x: IrFunctionV| s.contains(x) <==> g.contains(x)
    &&& forall|i: int, j: int| 0 <= i < j < s.len() ==> lex_lt(facade_export(#[trigger] s[i]), facade_export(#[trigger] s[j]))
}

/// Dispatcher by dispatcher, in the string order of their names: a group of two or more
/// overloads that can share one gets it.
pub open spec fn dispatchers_ok(ctx: PipelineContextV, fs: Seq<IrFunctionV>, es: Seq<Seq<char>>, ds: Seq<DispatcherV>) -> bool
    decreases es.len(),
{
    if es.len() == 0 {
        ds.len() == 0
    } else {
        let g = group_of(fs, es[0]);
        if g.len() >= 2 && group_safe(ctx, g) {
            &&& ds.len() > 0
            &&& ds[0].export_name == es[0]
            &&& sorted_by_export(ds[0].functions, g)
            &&& dispatchers_ok(ctx, fs, es.drop_first(), ds.drop_first())
        } else {
            dispatchers_ok(ctx, fs, es.drop_first(), ds)
        }
    }
}

pub open spec fn export_order(fs: Seq<IrFunctionV>, es: Seq<Seq<char>>) -> bool {
    &&& sorted_strict(es)
    &&& forall|e: Seq<char>| #[trigger] es.contains(e) <==> exists|k: int| 0 <= k < fs.len() && #[trigger] in_group(fs[k], e)
}

fn dispatcher_export_name(function: &IrFunction) -> (r: String)
    ensures
        r@ == disp_export(function@),
{
    let l = crate::gotypes::leaf_cpp_name(function.cpp_name.as_str());
    crate::case::go_export_name(l.as_str())
}

fn group_members(functions: &Vec<IrFunction>, e: &String) -> (r: Vec<IrFunction>)
    requires
        crate::facade::all_receivers_ok(functions_view(functions@)),
    ensures
        functions_view(r@) == group_of(functions_view(functions@), e@),
{
    let ghost fs = functions_view(functions@);
    let mut out: Vec<IrFunction> = Vec::new();
    let mut j: usize = 0;
    while j < functions.len()
        invariant
            j <= functions.len(),
            fs == functions_view(functions@),
            crate::facade::all_receivers_ok(fs),
            functions_view(out@) == group_of(fs.take(j as int), e@),
        decreases functions.len() - j,
    {
        assert(fs.take(j + 1).drop_last() =~= fs.take(j as int));
        assert(fs.take(j + 1).last() == fs[j as int]);
        assert(receiver_bound_ok(fs[j as int]));
        let f = &functions[j];
        if crate::gotypes::has_disambiguated_raw_overload_suffix(f) {
            let d = dispatcher_export_name(f);
            if crate::text::str_eq(d.as_str(), e.as_str()) {
                let ghost before = functions_view(out@);
                out.push(f.copy());
                assert(functions_view(out@) =~= before.push(fs[j as int]));
            }
        }
        j = j + 1;
    }
    assert(fs.take(j as int) =~= fs);
    out
}

pub open spec fn exports_distinct(g: Seq<IrFunctionV>) -> bool {
    forall|a: int, b: int| 0 <= a < b < g.len() ==> facade_export(#[trigger] g[a]) != facade_export(#[trigger] g[b])
}

proof fn lemma_group_member(fs: Seq<IrFunctionV>, e: Seq<char>, x: IrFunctionV)
    requires
        group_of(fs, e).contains(x),
    ensures
        exists|k: int| 0 <= k < fs.len() && fs[k] == x,
    decreases fs.len(),
{
    if fs.len() > 0 {
        if in_group(fs.last(), e) && x == fs.last() {
            assert(fs[fs.len() - 1] == x);
        } else {
            if in_group(fs.last(), e) {
                let g0 = group_of(fs.drop_last(), e);
                let t = choose|t: int| 0 <= t < group_of(fs, e).len() && group_of(fs, e)[t] == x;
                assert(group_of(fs, e) == g0.push(fs.last()));
                assert(t < g0.len());
                assert(g0[t] == x);
            }
            lemma_group_member(fs.drop_last(), e, x);
            let k = choose|k: int| 0 <= k < fs.drop_last().len() && fs.drop_last()[k] == x;
            assert(fs[k] == x);
        }
    }
}

proof fn lemma_keyed_distinct(fs: Seq<IrFunctionV>, a: int, b: int)
    requires
        symbols_distinct(crate::facade::keyed_all(fs)),
        0 <= a < fs.len(),
        0 <= b < fs.len(),
        a != b,
    ensures
        facade_export(fs[a]) != facade_export(fs[b]),
{
    let k = crate::facade::keyed_all(fs);
    assert(k[a].name == facade_export(fs[a]));
    assert(k[b].name == facade_export(fs[b]));
    if a < b {
    } else {
    }
}

use crate::assemble::symbols_distinct;

fn sort_by_export(group: &Vec<IrFunction>) -> (r: Vec<IrFunction>)
    requires
        crate::facade::all_receivers_ok(functions_view(group@)),
        exports_distinct(functions_view(group@)),
    ensures
        sorted_by_export(functions_view(r@), functions_view(group@)),
{
    let ghost g = functions_view(group@);
    let mut out: Vec<IrFunction> = Vec::new();
    let mut keys: Vec<String> = Vec::new();
    let mut i: usize = 0;
    while i < group.len()
        invariant
            i <= group.len(),
            g == functions_view(group@),
            crate::facade::all_receivers_ok(g),
            exports_distinct(g),
            out@.len() == keys@.len(),
            forall|t: int| 0 <= t < keys@.len() ==> #[trigger] keys@[t]@ == facade_export(functions_view(out@)[t]),
            sorted_by_export(functions_view(out@), g.take(i as int)),
        decreases group.len() - i,
    {
        let f = &group[i];
        assert(g[i as int] == f@);
        assert(receiver_bound_ok(g[i as int]));
        let key = crate::gotypes::go_facade_export_name(f);
        let ghost ov = functions_view(out@);
        let mut p: usize = 0;
        while p < out.len() && crate::assemble::lex_less(
            crate::text::chars_of(keys[p].as_str()).as_slice(),
            crate::text::chars_of(key.as_str()).as_slice(),
        )
            invariant
                p <= out.len() == keys@.len(),
                ov == functions_view(out@),
                forall|t: int| 0 <= t < keys@.len() ==> #[trigger] keys@[t]@ == facade_export(ov[t]),
                forall|t: int| 0 <= t < p ==> lex_lt(facade_export(#[trigger] ov[t]), key@),
            decreases out.len() - p,
        {
            p = p + 1;
        }
        proof {
            // every later key is greater: sorted, and none equals the new one
            assert forall|t: int| p <= t < ov.len() implies lex_lt(key@, facade_export(#[trigger] ov[t])) by {
                let x = ov[t];
                assert(ov.contains(x));
                assert(g.take(i as int).contains(x));
                let q = choose|q: int| 0 <= q < g.take(i as int).len() && g.take(i as int)[q] == x;
                assert(g[q] == x);
                assert(facade_export(g[q]) != facade_export(g[i as int]));
                if p < ov.len() {
                    assert(!lex_lt(facade_export(ov[p as int]), key@));
                    crate::assemble::lemma_lex_total(facade_export(ov[p as int]), key@);
                    let y = ov[p as int];
                    assert(ov.contains(y));
                    assert(g.take(i as int).contains(y));
                    let q2 = choose|q2: int| 0 <= q2 < g.take(i as int).len() && g.take(i as int)[q2] == y;
                    assert(g[q2] == y);
                    assert(facade_export(g[q2]) != facade_export(g[i as int]));
                    if t > p {
                        assert(lex_lt(facade_export(ov[p as int]), facade_export(ov[t])));
                        crate::assemble::lemma_lex_trans(key@, facade_export(ov[p as int]), facade_export(ov[t]));
                    }
                }
            }
        }
        out.insert(p, f.copy());
        keys.insert(p, key);
        proof {
            let nv = functions_view(out@);
            assert(nv =~= ov.insert(p as int, g[i as int]));
            let gi1 = g.take(i + 1);
            assert(gi1 =~= g.take(i as int).push(g[i as int]));
            assert forall|x: IrFunctionV| nv.contains(x) <==> gi1.contains(x) by {
                if nv.contains(x) {
                    let t = choose|t: int| 0 <= t < nv.len() && nv[t] == x;
                    if t < p {
                        assert(ov[t] == x);
                        assert(ov.contains(x));
                        let q = choose|q: int| 0 <= q < g.take(i as int).len() && g.take(i as int)[q] == x;
                        assert(gi1[q] == x);
                    } else if t == p {
                        assert(gi1[i as int] == x);
                    } else {
                        assert(ov[t - 1] == x);
                        assert(ov.contains(x));
                        let q = choose|q: int| 0 <= q < g.take(i as int).len() && g.take(i as int)[q] == x;
                        assert(gi1[q] == x);
                    }
                }
                if gi1.contains(x) {
                    let q = choose|q: int| 0 <= q < gi1.len() && gi1[q] == x;
                    if q == i {
                        assert(nv[p as int] == x);
                    } else {
                        assert(g.take(i as int)[q] == x);
                        assert(g.take(i as int).contains(x));
                        let t = choose|t: int| 0 <= t < ov.len() && ov[t] == x;
                        if t < p {
                            assert(nv[t] == x);
                        } else {
                            assert(nv[t + 1] == x);
                        }
                    }
                }
            }
            assert forall|a: int, b: int| 0 <= a < b < nv.len() implies lex_lt(facade_export(#[trigger] nv[a]), facade_export(#[trigger] nv[b])) by {
                if b < p {
                    assert(nv[a] == ov[a] && nv[b] == ov[b]);
                } else if a < p && b == p {
                    assert(nv[a] == ov[a]);
                } else if a < p && b > p {
                    assert(nv[a] == ov[a] && nv[b] == ov[b - 1]);
                    assert(lex_lt(facade_export(ov[a]), key@));
                    crate::assemble::lemma_lex_trans(facade_export(ov[a]), key@, facade_export(ov[b - 1]));
                } else if a == p {
                    assert(nv[b] == ov[b - 1]);
                } else {
                    assert(nv[a] == ov[a - 1] && nv[b] == ov[b - 1]);
                }
            }
            assert forall|t: int| 0 <= t < keys@.len() implies #[trigger] keys@[t]@ == facade_export(nv[t]) by {
                if t < p {
                    assert(nv[t] == ov[t]);
                } else if t > p {
                    assert(nv[t] == ov[t - 1]);
                }
            }
        }
        i = i + 1;
    }
    assert(g.take(i as int) =~= g);
    out
}

pub open spec fn seq_exports_distinct(fs: Seq<IrFunctionV>) -> bool {
    forall|a: int, b: int| 0 <= a < fs.len() && 0 <= b < fs.len() && a != b ==> facade_export(#[trigger] fs[a]) != facade_export(#[trigger] fs[b])
}

proof fn lemma_group_distinct(fs: Seq<IrFunctionV>, e: Seq<char>)
    requires
        seq_exports_distinct(fs),
    ensures
        exports_distinct(group_of(fs, e)),
    decreases fs.len(),
{
    if fs.len() > 0 {
        let d = fs.drop_last();
        assert(seq_exports_distinct(d)) by {
            assert forall|a: int, b: int| 0 <= a < d.len() && 0 <= b < d.len() && a != b implies facade_export(#[trigger] d[a]) != facade_export(#[trigger] d[b]) by {
                assert(d[a] == fs[a] && d[b] == fs[b]);
            }
        }
        lemma_group_distinct(d, e);
        if in_group(fs.last(), e) {
            let g0 = group_of(d, e);
            let g = group_of(fs, e);
            assert(g == g0.push(fs.last()));
            assert forall|a: int, b: int| 0 <= a < b < g.len() implies facade_export(#[trigger] g[a]) != facade_export(#[trigger] g[b]) by {
                if b == g.len() - 1 {
                    assert(g[a] == g0[a]);
                    assert(g0.contains(g0[a]));
                    lemma_group_member(d, e, g0[a]);
                    let k = choose|k: int| 0 <= k < d.len() && d[k] == g0[a];
                    assert(fs[k] == g0[a]);
                    assert(g[b] == fs[fs.len() - 1]);
                } else {
                    assert(g[a] == g0[a] && g[b] == g0[b]);
                }
            }
        }
    }
}

proof fn lemma_step_ok(
    ctx: PipelineContextV,
    fs: Seq<IrFunctionV>,
    es: Seq<Seq<char>>,
    k: int,
    d: Option<DispatcherV>,
)
    requires
        0 <= k < es.len(),
        match d {
            Some(dv) => group_of(fs, es[k]).len() >= 2 && group_safe(ctx, group_of(fs, es[k])) && dv.export_name == es[k]
                && sorted_by_export(dv.functions, group_of(fs, es[k])),
            None => !(group_of(fs, es[k]).len() >= 2 && group_safe(ctx, group_of(fs, es[k]))),
        },
    ensures
        forall|rest: Seq<DispatcherV>| #[trigger] dispatchers_ok(ctx, fs, es.skip(k + 1), rest) ==> dispatchers_ok(
            ctx,
            fs,
            es.skip(k),
            match d {
                Some(dv) => seq![dv] + rest,
                None => rest,
            },
        ),
{
    assert(es.skip(k).drop_first() =~= es.skip(k + 1));
    assert(es.skip(k)[0] == es[k]);
    assert forall|rest: Seq<DispatcherV>| #[trigger] dispatchers_ok(ctx, fs, es.skip(k + 1), rest) implies dispatchers_ok(
        ctx,
        fs,
        es.skip(k),
        match d {
            Some(dv) => seq![dv] + rest,
            None => rest,
        },
    ) by {
        match d {
            Some(dv) => {
                assert((seq![dv] + rest).drop_first() =~= rest);
                assert((seq![dv] + rest)[0] == dv);
            },
            None => {},
        }
    }
}

/// The dispatchers of a list of functions.
pub fn collect_dispatchers(ctx: &PipelineContext, functions: &Vec<IrFunction>) -> (r: Vec<OverloadDispatcher>)
    requires
        crate::facade::all_receivers_ok(functions_view(functions@)),
        symbols_distinct(crate::facade::keyed_all(functions_view(functions@))),
    ensures
        dispatchers_view(r@) == disp_list(ctx@, functions_view(functions@), export_list(functions_view(functions@))),
        forall|i: int| 0 <= i < r@.len() ==> #[trigger] dispatcher_sound(ctx@, functions_view(functions@), dispatchers_view(r@)[i]),
{
    let ghost fs = functions_view(functions@);
    proof {
        assert(seq_exports_distinct(fs)) by {
            assert forall|a: int, b: int| 0 <= a < fs.len() && 0 <= b < fs.len() && a != b implies facade_export(#[trigger] fs[a]) != facade_export(#[trigger] fs[b]) by {
                lemma_keyed_distinct(fs, a, b);
            }
        }
    }
    let mut found: Vec<String> = Vec::new();
    let mut j: usize = 0;
    while j < functions.len()
        invariant
            j <= functions.len(),
            fs == functions_view(functions@),
            crate::facade::all_receivers_ok(fs),
            forall|e: Seq<char>| #[trigger] strs(found@).contains(e) <==> exists|k: int| 0 <= k < j && #[trigger] in_group(fs[k], e),
        decreases functions.len() - j,
    {
        let f = &functions[j];
        assert(fs[j as int] == f@);
        assert(receiver_bound_ok(fs[j as int]));
        let ghost before = strs(found@);
        if crate::gotypes::has_disambiguated_raw_overload_suffix(f) {
            let d = dispatcher_export_name(f);
            found.push(d);
            proof {
                let now = strs(found@);
                assert(now =~= before.push(disp_export(f@)));
                assert(in_group(fs[j as int], disp_export(f@)));
                assert forall|e: Seq<char>| #[trigger] now.contains(e) <==> exists|k: int| 0 <= k < j + 1 && #[trigger] in_group(fs[k], e) by {
                    if now.contains(e) {
                        let t = choose|t: int| 0 <= t < now.len() && now[t] == e;
                        if t == before.len() {
                            assert(in_group(fs[j as int], e));
                        } else {
                            assert(before[t] == e);
                            assert(before.contains(e));
                            let k = choose|k: int| 0 <= k < j && #[trigger] in_group(fs[k], e);
                            assert(in_group(fs[k], e));
                        }
                    }
                    if exists|k: int| 0 <= k < j + 1 && #[trigger] in_group(fs[k], e) {
                        let k = choose|k: int| 0 <= k < j + 1 && #[trigger] in_group(fs[k], e);
                        if k == j {
                            assert(now[before.len() as int] == e);
                        } else {
                            assert(before.contains(e));
                            let t = choose|t: int| 0 <= t < before.len() && before[t] == e;
                            assert(now[t] == e);
                        }
                    }
                }
            }
        } else {
            proof {
                assert(!in_group(fs[j as int], disp_export(fs[j as int])));
                assert forall|e: Seq<char>| #[trigger] strs(found@).contains(e) <==> exists|k: int| 0 <= k < j + 1 && #[trigger] in_group(fs[k], e) by {
                    if exists|k: int| 0 <= k < j + 1 && #[trigger] in_group(fs[k], e) {
                        let k = choose|k: int| 0 <= k < j + 1 && #[trigger] in_group(fs[k], e);
                        assert(k != j);
                    }
                }
            }
        }
        j = j + 1;
    }
    let es = crate::pipeline::sorted_unique(&found);
    let ghost ev = strs(es@);
    assert(export_order(fs, ev));
    let mut out: Vec<OverloadDispatcher> = Vec::new();
    let mut k: usize = 0;
    assert forall|rest: Seq<DispatcherV>| #[trigger] dispatchers_ok(ctx@, fs, ev.skip(0), rest) implies dispatchers_ok(ctx@, fs, ev, dispatchers_view(out@) + rest) by {
        assert(ev.skip(0) =~= ev);
        assert(dispatchers_view(out@) + rest =~= rest);
    }
    while k < es.len()
        invariant
            k <= es.len(),
            fs == functions_view(functions@),
            ev == strs(es@),
            export_order(fs, ev),
            crate::facade::all_receivers_ok(fs),
            seq_exports_distinct(fs),
            forall|rest: Seq<DispatcherV>| #[trigger] dispatchers_ok(ctx@, fs, ev.skip(k as int), rest) ==> dispatchers_ok(ctx@, fs, ev, dispatchers_view(out@) + rest),
        decreases es.len() - k,
    {
        let e = &es[k];
        assert(ev[k as int] == e@);
        let g = group_members(functions, e);
        let ghost before = dispatchers_view(out@);
        if g.len() >= 2 && dispatcher_group_is_safe(ctx, &g) {
            proof {
                lemma_group_distinct(fs, e@);
                assert forall|t: int| 0 <= t < functions_view(g@).len() implies #[trigger] receiver_bound_ok(functions_view(g@)[t]) by {
                    let x = functions_view(g@)[t];
                    assert(group_of(fs, e@).contains(x));
                    lemma_group_member(fs, e@, x);
                    let q = choose|q: int| 0 <= q < fs.len() && fs[q] == x;
                    assert(receiver_bound_ok(fs[q]));
                }
            }
            let sorted = sort_by_export(&g);
            let d = OverloadDispatcher { export_name: e.clone(), functions: sorted };
            proof {
                lemma_step_ok(ctx@, fs, ev, k as int, Some(d@));
            }
            out.push(d);
            proof {
                assert(dispatchers_view(out@) =~= before.push(d@));
                assert forall|rest: Seq<DispatcherV>| #[trigger] dispatchers_ok(ctx@, fs, ev.skip(k + 1), rest) implies dispatchers_ok(ctx@, fs, ev, dispatchers_view(out@) + rest) by {
                    assert(dispatchers_ok(ctx@, fs, ev.skip(k as int), seq![d@] + rest));
                    assert(before + (seq![d@] + rest) =~= dispatchers_view(out@) + rest);
                }
            }
        } else {
            proof {
                lemma_step_ok(ctx@, fs, ev, k as int, None);
            }
        }
        k = k + 1;
    }
    proof {
        assert(ev.skip(k as int) =~= Seq::<Seq<char>>::empty());
        assert(dispatchers_ok(ctx@, fs, ev.skip(k as int), Seq::<DispatcherV>::empty()));
        assert(dispatchers_view(out@) + Seq::<DispatcherV>::empty() =~= dispatchers_view(out@));
        lemma_export_list(fs, ev);
        lemma_disp_list(ctx@, fs, ev, dispatchers_view(out@));
        lemma_dispatchers_sound(ctx@, fs, ev, dispatchers_view(out@));
    }
    out
}

// ---------------------------------------------------------------------------
// Rendering a dispatcher
// ---------------------------------------------------------------------------

/// The dispatcher's parameters renamed `arg0`, `arg1`, ….
pub open spec fn renamed_params(ps: Seq<IrParamV>) -> Seq<IrParamV> {
    Seq::new(ps.len(), |i: int| IrParamV { name: "arg"@ + decimal(i as nat), ty: ps[i].ty })
}

pub open spec fn recv_of(recv: Option<(Seq<char>, Seq<char>)>) -> Option<Seq<char>> {
    match recv {
        Some((r, _)) => Some(r),
        None => None,
    }
}

/// One candidate's call: preparation of the renamed arguments, the call, and the return
/// with a `nil` error.
pub open spec fn inline_text(
    ctx: PipelineContextV,
    f: IrFunctionV,
    recv: Option<Seq<char>>,
    covered: Seq<Seq<char>>,
    owned: Seq<Seq<char>>,
) -> Seq<char> {
    let ps = renamed_params(disp_params(f));
    let cb = crate::calls::has_callback_params(ps, 0);
    let offset: nat = if recv is Some { 1 } else { 0 };
    let prep = if cb {
        crate::calls::callback_prep_of(ctx, f, ps, offset, covered, owned)
    } else {
        crate::calls::prep_of(ctx, ps, covered, owned)
    };
    let args = match recv {
        Some(r) => seq![r + ".ptr"@] + prep.args,
        None => prep.args,
    };
    let call = "C."@ + f.name + (if cb {
        "_bridge("@
    } else {
        "("@
    }) + join(args, ", "@) + ")"@;
    let root = match recv {
        Some(r) => Some(r + ".root"@),
        None => crate::calls::borrow_root_of(ctx, ps, covered, owned),
    };
    crate::calls::indented(prep.setup) + crate::calls::indented(prep.defers) + crate::calls::call_return_text(
        ctx,
        f,
        call,
        prep.posts,
        root,
        covered,
        owned,
        ReturnMode::Dispatcher,
    )
}

pub open spec fn type_asserts(ctx: PipelineContextV, ps: Seq<IrParamV>) -> Seq<char>
    decreases ps.len(),
{
    if ps.len() == 0 {
        seq![]
    } else {
        let i = (ps.len() - 1) as nat;
        type_asserts(ctx, ps.drop_last()) + "            arg"@ + decimal(i) + ", ok"@ + decimal(i) + " := args["@ + decimal(i)
            + "].("@ + go_param(ctx, ps.last().ty)->0 + ")\n"@
    }
}

pub open spec fn ok_names(n: nat) -> Seq<Seq<char>> {
    Seq::new(n, |i: int| "ok"@ + decimal(i as nat))
}

pub open spec fn ok_condition(n: nat) -> Seq<char> {
    if n == 0 {
        "true"@
    } else {
        join(ok_names(n), " && "@)
    }
}

/// A candidate: assert each argument's type and, when all match, call the overload.
#[verifier::opaque]
pub open spec fn candidate_text(
    ctx: PipelineContextV,
    f: IrFunctionV,
    recv: Option<Seq<char>>,
    covered: Seq<Seq<char>>,
    owned: Seq<Seq<char>>,
) -> Seq<char> {
    let ps = disp_params(f);
    "        {\n"@ + type_asserts(ctx, ps) + "            if "@ + ok_condition(ps.len()) + " {\n"@ + crate::calls::indent_all(
        crate::calls::text_lines(inline_text(ctx, f, recv, covered, owned)),
        12,
    ) + "            }\n"@ + "        }\n"@
}

pub open spec fn with_arity(fs: Seq<IrFunctionV>, a: nat) -> Seq<IrFunctionV>
    decreases fs.len(),
{
    if fs.len() == 0 {
        seq![]
    } else if disp_params(fs.last()).len() == a {
        with_arity(fs.drop_last(), a).push(fs.last())
    } else {
        with_arity(fs.drop_last(), a)
    }
}

pub open spec fn candidates_text(
    ctx: PipelineContextV,
    fs: Seq<IrFunctionV>,
    recv: Option<Seq<char>>,
    covered: Seq<Seq<char>>,
    owned: Seq<Seq<char>>,
) -> Seq<char>
    decreases fs.len(),
{
    if fs.len() == 0 {
        seq![]
    } else {
        candidates_text(ctx, fs.drop_last(), recv, covered, owned) + candidate_text(ctx, fs.last(), recv, covered, owned)
    }
}

/// One `case` per argument count, ascending, with that count's candidates in order.
pub open spec fn cases_text(
    ctx: PipelineContextV,
    fs: Seq<IrFunctionV>,
    arities: Seq<nat>,
    recv: Option<Seq<char>>,
    covered: Seq<Seq<char>>,
    owned: Seq<Seq<char>>,
) -> Seq<char>
    decreases arities.len(),
{
    if arities.len() == 0 {
        seq![]
    } else {
        cases_text(ctx, fs, arities.drop_last(), recv, covered, owned) + "    case "@ + decimal(arities.last()) + ":\n"@
            + candidates_text(ctx, with_arity(fs, arities.last()), recv, covered, owned)
    }
}

pub open spec fn arity_order(fs: Seq<IrFunctionV>, arities: Seq<nat>) -> bool {
    &&& forall|i: int, j: int| 0 <= i < j < arities.len() ==> #[trigger] arities[i] < #[trigger] arities[j]
    &&& forall|a: nat| #[trigger] arities.contains(a) <==> exists|k: int| 0 <= k < fs.len() && disp_params(#[trigger] fs[k]).len() == a
}

/// The dispatcher: receiver checks for a method, the switch on the argument count, and an
/// error when no overload matched.
#[verifier::opaque]
pub open spec fn dispatcher_text(
    ctx: PipelineContextV,
    d: DispatcherV,
    recv: Option<(Seq<char>, Seq<char>)>,
    arities: Seq<nat>,
    covered: Seq<Seq<char>>,
    owned: Seq<Seq<char>>,
) -> Seq<char> {
    let first = d.functions[0];
    let sig = crate::calls::sig_part(disp_ret(return_sig(ctx, first.returns))->0);
    let display = match recv {
        Some((_, c)) => c + "."@ + d.export_name,
        None => d.export_name,
    };
    (match recv {
        Some((r, c)) => "func ("@ + r + " *"@ + c + ") "@ + d.export_name + "(args ...any)"@ + sig + " {\n"@ + "    if "@ + r
            + " == nil || "@ + r + ".ptr == nil {\n        "@ + error_return(ctx, first, c + " receiver is nil"@) + "\n    }\n"@
            + crate::calls::closed_check(r, c),
        None => "func "@ + d.export_name + "(args ...any)"@ + sig + " {\n"@,
    }) + "    switch len(args) {\n"@ + cases_text(ctx, d.functions, arities, recv_of(recv), covered, owned) + "    }\n"@ + "    "@
        + error_return(ctx, first, "no matching overload for "@ + display) + "\n"@ + "}\n"@
}

/// What a dispatcher's overloads need to be rendered.
pub open spec fn dispatcher_renderable(ctx: PipelineContextV, d: DispatcherV) -> bool {
    &&& d.functions.len() >= 1
    &&& disp_ret(return_sig(ctx, d.functions[0].returns)) is Some
    &&& forall|k: int| 0 <= k < d.functions.len() ==> #[trigger] key_ok(ctx, d.functions[k])
    &&& forall|k: int| 0 <= k < d.functions.len() ==> crate::calls::callback_params_renderable(disp_params(#[trigger] d.functions[k]))
    &&& forall|k: int| 0 <= k < d.functions.len() ==> crate::calls::return_renderable(ctx, (#[trigger] d.functions[k]).returns)
    &&& forall|k: int| 0 <= k < d.functions.len() ==> (#[trigger] d.functions[k]).params.len() < usize::MAX
}

fn renamed_dispatch_params(function: &IrFunction) -> (r: Vec<IrParam>)
    ensures
        params_view(r@) == renamed_params(disp_params(function@)),
        r.len() <= function.params.len(),
{
    let from = dispatcher_param_start(function);
    let ghost ps = disp_params(function@);
    let mut out: Vec<IrParam> = Vec::new();
    let mut i: usize = from;
    while i < function.params.len()
        invariant
            from <= i <= function.params.len(),
            ps == function@.params.skip(from as int),
            out.len() == i - from,
            params_view(out@) =~= renamed_params(ps).take(i - from),
        decreases function.params.len() - i,
    {
        assert(ps[i - from] == function.params@[i as int]@);
        let d = crate::text::decimal_vec(i - from);
        let mut name = String::from_str("arg");
        crate::text::push_chars(&mut name, d.as_slice());
        let p = IrParam { name, ty: function.params[i].ty.copy() };
        let ghost before = params_view(out@);
        out.push(p);
        assert(params_view(out@) =~= before.push(p@));
        i = i + 1;
    }
    assert(renamed_params(ps).take(i - from) =~= renamed_params(ps));
    out
}

pub fn render_dispatcher_inline_return(
    ctx: &PipelineContext,
    function: &IrFunction,
    recv: Option<&str>,
    covered_handles: &Vec<String>,
    owned_opaque_value_handles: &Vec<String>,
) -> (r: String)
    requires
        crate::calls::callback_params_renderable(disp_params(function@)),
        crate::calls::return_renderable(ctx@, function@.returns),
        function.params.len() < usize::MAX,
    ensures
        r@ == inline_text(
            ctx@,
            function@,
            match recv {
                Some(x) => Some(x@),
                None => None,
            },
            strs(covered_handles@),
            strs(owned_opaque_value_handles@),
        ),
{
    let renamed = renamed_dispatch_params(function);
    let ghost ps = renamed_params(disp_params(function@));
    assert(params_view(renamed@).skip(0) =~= ps);
    proof {
        assert forall|k: int| 0 <= k < ps.len() implies ps[k].ty.kind == IrTypeKind::Callback || #[trigger] crate::calls::param_renderable(ps[k].ty) by {
            assert(ps[k].ty == disp_params(function@)[k].ty);
        }
    }
    let cb = crate::calls::param_test(&renamed, 0, crate::calls::ParamTest::Callbacks);
    let offset: usize = if recv.is_some() { 1 } else { 0 };
    let prep = if cb {
        crate::calls::callback_prep_over(ctx, function, &renamed, 0, offset, covered_handles, owned_opaque_value_handles)
    } else {
        proof {
            crate::calls::lemma_no_callbacks_renderable(ps, 0);
        }
        crate::calls::render_call_prep(ctx, &renamed, 0, covered_handles, owned_opaque_value_handles)
    };
    let mut all_args: Vec<String> = Vec::new();
    assert(views(all_args@) =~= Seq::<Seq<char>>::empty());
    match recv {
        Some(r) => push_line(&mut all_args, cat2(r, ".ptr")),
        None => {},
    }
    let ghost head = views(all_args@);
    let mut k: usize = 0;
    while k < prep.args.len()
        invariant
            k <= prep.args.len(),
            views(all_args@) =~= head + views(prep.args@).take(k as int),
        decreases prep.args.len() - k,
    {
        push_line(&mut all_args, prep.args[k].clone());
        k = k + 1;
    }
    assert(views(prep.args@).take(k as int) =~= views(prep.args@));
    let args = crate::text::join_strings(&all_args, ", ");
    let call = if cb {
        cat5("C.", function.name.as_str(), "_bridge(", args.as_str(), ")")
    } else {
        cat5("C.", function.name.as_str(), "(", args.as_str(), ")")
    };
    proof {
        reveal_strlit("");
    }
    let root = match recv {
        Some(r) => Some(cat2(r, ".root")),
        None => crate::calls::infer_borrow_root_expr(ctx, &renamed, 0, covered_handles, owned_opaque_value_handles),
    };
    let mut out = crate::calls::indented_lines(&prep.setup_lines);
    let defers = crate::calls::indented_lines(&prep.defer_lines);
    push_string(&mut out, &defers);
    let ret = crate::calls::render_go_call_return_with_mode(
        ctx,
        function,
        call.as_str(),
        &prep.post_call_lines,
        root,
        covered_handles,
        owned_opaque_value_handles,
        ReturnMode::Dispatcher,
    );
    push_string(&mut out, &ret);
    out
}

pub fn render_dispatcher_candidate(
    ctx: &PipelineContext,
    function: &IrFunction,
    recv: Option<&str>,
    covered_handles: &Vec<String>,
    owned_opaque_value_handles: &Vec<String>,
) -> (r: String)
    requires
        key_ok(ctx@, function@),
        crate::calls::callback_params_renderable(disp_params(function@)),
        crate::calls::return_renderable(ctx@, function@.returns),
        function.params.len() < usize::MAX,
    ensures
        r@ == candidate_text(
            ctx@,
            function@,
            match recv {
                Some(x) => Some(x@),
                None => None,
            },
            strs(covered_handles@),
            strs(owned_opaque_value_handles@),
        ),
{
    proof {
        reveal(candidate_text);
    }
    let from = dispatcher_param_start(function);
    let ghost ps = disp_params(function@);
    let mut out = String::from_str("        {\n");
    let ghost head = out@;
    let mut oks: Vec<String> = Vec::new();
    let mut i: usize = from;
    assert(ps.take(0) =~= Seq::<IrParamV>::empty());
    while i < function.params.len()
        invariant
            from <= i <= function.params.len(),
            ps == function@.params.skip(from as int),
            ps == disp_params(function@),
            key_ok(ctx@, function@),
            out@ == head + type_asserts(ctx@, ps.take(i - from)),
            views(oks@) =~= ok_names((i - from) as nat),
        decreases function.params.len() - i,
    {
        assert(ps.take(i + 1 - from).drop_last() =~= ps.take(i - from));
        assert(ps.take(i + 1 - from).last() == function.params@[i as int]@);
        assert(ps[i - from] == function.params@[i as int]@);
        assert(go_param(ctx@, ps[i - from].ty) is Some);
        let d = crate::text::decimal_vec(i - from);
        let ds = crate::text::string_of(d.as_slice());
        let g = match crate::gotypes::go_param_type(ctx, &function.params[i].ty) {
            Some(g) => g,
            None => String::new(),
        };
        push_str(&mut out, "            arg");
        push_string(&mut out, &ds);
        push_str(&mut out, ", ok");
        push_string(&mut out, &ds);
        push_str(&mut out, " := args[");
        push_string(&mut out, &ds);
        push_str(&mut out, "].(");
        push_string(&mut out, &g);
        push_str(&mut out, ")\n");
        let ok = cat2("ok", ds.as_str());
        let ghost before = views(oks@);
        oks.push(ok);
        assert(views(oks@) =~= before.push(ok@));
        assert(ok_names((i + 1 - from) as nat) =~= ok_names((i - from) as nat).push("ok"@ + decimal((i - from) as nat)));
        i = i + 1;
    }
    assert(ps.take(i - from) =~= ps);
    let cond = if oks.len() == 0 {
        String::from_str("true")
    } else {
        crate::text::join_strings(&oks, " && ")
    };
    push_str(&mut out, "            if ");
    push_string(&mut out, &cond);
    push_str(&mut out, " {\n");
    let inner = render_dispatcher_inline_return(ctx, function, recv, covered_handles, owned_opaque_value_handles);
    let body = crate::calls::indent_lines(inner.as_str(), 12);
    push_string(&mut out, &body);
    push_str(&mut out, "            }\n");
    push_str(&mut out, "        }\n");
    out
}

pub open spec fn nats(v: Seq<usize>) -> Seq<nat> {
    v.map_values(|a: usize| a as nat)
}

fn arities_of(functions: &Vec<IrFunction>) -> (r: Vec<usize>)
    ensures
        arity_order(functions_view(functions@), nats(r@)),
{
    let ghost fs = functions_view(functions@);
    let mut out: Vec<usize> = Vec::new();
    let mut j: usize = 0;
    while j < functions.len()
        invariant
            j <= functions.len(),
            fs == functions_view(functions@),
            forall|a: int, b: int| 0 <= a < b < out@.len() ==> #[trigger] out@[a] < #[trigger] out@[b],
            forall|n: nat| #[trigger] nats(out@).contains(n) <==> exists|k: int| 0 <= k < j && disp_params(#[trigger] fs[k]).len() == n,
        decreases functions.len() - j,
    {
        let from = dispatcher_param_start(&functions[j]);
        let n = functions[j].params.len() - from;
        assert(fs[j as int] == functions@[j as int]@);
        assert(disp_params(fs[j as int]).len() == n);
        let ghost ov = out@;
        let mut p: usize = 0;
        while p < out.len() && out[p] < n
            invariant
                p <= out.len(),
                ov == out@,
                forall|t: int| 0 <= t < p ==> out@[t] < n,
            decreases out.len() - p,
        {
            p = p + 1;
        }
        if p < out.len() && out[p] == n {
            proof {
                let m = nats(out@);
                assert forall|x: nat| #[trigger] m.contains(x) <==> exists|k: int| 0 <= k < j + 1 && disp_params(#[trigger] fs[k]).len() == x by {
                    if exists|k: int| 0 <= k < j + 1 && disp_params(#[trigger] fs[k]).len() == x {
                        let k = choose|k: int| 0 <= k < j + 1 && disp_params(#[trigger] fs[k]).len() == x;
                        if k == j {
                            assert(m[p as int] == x);
                        }
                    }
                    if m.contains(x) {
                        let t = choose|t: int| 0 <= t < m.len() && m[t] == x;
                        assert(m.contains(x));
                    }
                }
            }
        } else {
            out.insert(p, n);
            proof {
                let m0 = nats(ov);
                let m = nats(out@);
                assert(out@ =~= ov.insert(p as int, n));
                assert forall|a: int, b: int| 0 <= a < b < out@.len() implies #[trigger] out@[a] < #[trigger] out@[b] by {
                    if b < p {
                    } else if a < p && b == p {
                    } else if a < p && b > p {
                        assert(out@[b] == ov[b - 1]);
                        assert(ov[p as int] > n || ov[p as int] == n || ov[p as int] < n);
                        assert(ov[p as int] >= n);
                        if b - 1 > p {
                            assert(ov[p as int] < ov[b - 1]);
                        }
                    } else if a == p {
                        assert(out@[b] == ov[b - 1]);
                        assert(ov[p as int] >= n);
                        assert(ov[p as int] != n);
                        if b - 1 > p {
                            assert(ov[p as int] < ov[b - 1]);
                        }
                    } else {
                        assert(out@[a] == ov[a - 1] && out@[b] == ov[b - 1]);
                    }
                }
                assert forall|x: nat| #[trigger] m.contains(x) <==> exists|k: int| 0 <= k < j + 1 && disp_params(#[trigger] fs[k]).len() == x by {
                    if m.contains(x) {
                        let t = choose|t: int| 0 <= t < m.len() && m[t] == x;
                        if t == p {
                            assert(disp_params(fs[j as int]).len() == x);
                        } else {
                            let t2 = if t < p { t } else { t - 1 };
                            assert(m0[t2] == x);
                            assert(m0.contains(x));
                            let k = choose|k: int| 0 <= k < j && disp_params(#[trigger] fs[k]).len() == x;
                            assert(0 <= k < j + 1);
                        }
                    }
                    if exists|k: int| 0 <= k < j + 1 && disp_params(#[trigger] fs[k]).len() == x {
                        let k = choose|k: int| 0 <= k < j + 1 && disp_params(#[trigger] fs[k]).len() == x;
                        if k == j {
                            assert(m[p as int] == x);
                        } else {
                            assert(m0.contains(x));
                            let t = choose|t: int| 0 <= t < m0.len() && m0[t] == x;
                            if t < p {
                                assert(m[t] == x);
                            } else {
                                assert(m[t + 1] == x);
                            }
                        }
                    }
                }
            }
        }
        j = j + 1;
    }
    proof {
        let m = nats(out@);
        assert forall|a: int, b: int| 0 <= a < b < m.len() implies #[trigger] m[a] < #[trigger] m[b] by {
            assert(out@[a] < out@[b]);
        }
    }
    out
}

pub open spec fn recv_view(recv: Option<(&str, &str)>) -> Option<(Seq<char>, Seq<char>)> {
    match recv {
        Some((r, c)) => Some((r@, c@)),
        None => None,
    }
}

fn render_arity_candidates(
    ctx: &PipelineContext,
    d: &OverloadDispatcher,
    a: usize,
    recv: Option<&str>,
    covered_handles: &Vec<String>,
    owned_opaque_value_handles: &Vec<String>,
) -> (r: String)
    requires
        dispatcher_renderable(ctx@, d@),
    ensures
        r@ == candidates_text(
            ctx@,
            with_arity(d@.functions, a as nat),
            match recv {
                Some(x) => Some(x@),
                None => None,
            },
            strs(covered_handles@),
            strs(owned_opaque_value_handles@),
        ),
{
    let ghost fs = d@.functions;
    let ghost rv: Option<Seq<char>> = match recv {
        Some(x) => Some(x@),
        None => None,
    };
    let ghost cov = strs(covered_handles@);
    let ghost own = strs(owned_opaque_value_handles@);
    let mut out = String::new();
    let mut j: usize = 0;
    while j < d.functions.len()
        invariant
            j <= d.functions.len(),
            fs == d@.functions,
            dispatcher_renderable(ctx@, d@),
            rv == (match recv {
                Some(x) => Some(x@),
                None => None::<Seq<char>>,
            }),
            cov == strs(covered_handles@),
            own == strs(owned_opaque_value_handles@),
            out@ == candidates_text(ctx@, with_arity(fs.take(j as int), a as nat), rv, cov, own),
        decreases d.functions.len() - j,
    {
        assert(fs.take(j + 1).drop_last() =~= fs.take(j as int));
        assert(fs.take(j + 1).last() == fs[j as int]);
        let f = &d.functions[j];
        assert(fs[j as int] == f@);
        let from = dispatcher_param_start(f);
        assert(disp_params(fs[j as int]).len() == f.params.len() - from);
        let ghost w0 = with_arity(fs.take(j as int), a as nat);
        if f.params.len() - from == a {
            assert(key_ok(ctx@, fs[j as int]));
            assert(crate::calls::callback_params_renderable(disp_params(fs[j as int])));
            assert(crate::calls::return_renderable(ctx@, fs[j as int].returns));
            assert(fs[j as int].params.len() < usize::MAX);
            let c = render_dispatcher_candidate(ctx, f, recv, covered_handles, owned_opaque_value_handles);
            push_string(&mut out, &c);
            assert(with_arity(fs.take(j + 1), a as nat) == w0.push(fs[j as int]));
            assert(w0.push(fs[j as int]).drop_last() =~= w0);
        } else {
            assert(with_arity(fs.take(j + 1), a as nat) == w0);
        }
        j = j + 1;
    }
    assert(fs.take(j as int) =~= fs);
    out
}

fn render_cases(
    ctx: &PipelineContext,
    d: &OverloadDispatcher,
    arities: &Vec<usize>,
    recv: Option<&str>,
    covered_handles: &Vec<String>,
    owned_opaque_value_handles: &Vec<String>,
) -> (r: String)
    requires
        dispatcher_renderable(ctx@, d@),
    ensures
        r@ == cases_text(
            ctx@,
            d@.functions,
            nats(arities@),
            match recv {
                Some(x) => Some(x@),
                None => None,
            },
            strs(covered_handles@),
            strs(owned_opaque_value_handles@),
        ),
{
    let ghost fs = d@.functions;
    let ghost rv: Option<Seq<char>> = match recv {
        Some(x) => Some(x@),
        None => None,
    };
    let ghost cov = strs(covered_handles@);
    let ghost own = strs(owned_opaque_value_handles@);
    let ghost av = nats(arities@);
    let mut out = String::new();
    let mut t: usize = 0;
    while t < arities.len()
        invariant
            t <= arities.len(),
            fs == d@.functions,
            av == nats(arities@),
            dispatcher_renderable(ctx@, d@),
            rv == (match recv {
                Some(x) => Some(x@),
                None => None::<Seq<char>>,
            }),
            cov == strs(covered_handles@),
            own == strs(owned_opaque_value_handles@),
            out@ == cases_text(ctx@, fs, av.take(t as int), rv, cov, own),
        decreases arities.len() - t,
    {
        assert(av.take(t + 1).drop_last() =~= av.take(t as int));
        assert(av.take(t + 1).last() == arities@[t as int] as nat);
        let a = arities[t];
        push_str(&mut out, "    case ");
        let dv = crate::text::decimal_vec(a);
        crate::text::push_chars(&mut out, dv.as_slice());
        push_str(&mut out, ":\n");
        let c = render_arity_candidates(ctx, d, a, recv, covered_handles, owned_opaque_value_handles);
        push_string(&mut out, &c);
        t = t + 1;
    }
    assert(av.take(t as int) =~= av);
    out
}

/// Renders a dispatcher, over free functions (`recv` none) or over a class's methods
/// (`recv` the receiver's name and the class's Go name).
pub fn render_dispatcher(
    ctx: &PipelineContext,
    d: &OverloadDispatcher,
    recv: Option<(&str, &str)>,
    covered_handles: &Vec<String>,
    owned_opaque_value_handles: &Vec<String>,
) -> (r: String)
    requires
        dispatcher_renderable(ctx@, d@),
    ensures
        r@ == dispatcher_text(
            ctx@,
            d@,
            recv_view(recv),
            arity_list(d@.functions),
            strs(covered_handles@),
            strs(owned_opaque_value_handles@),
        ),
{
    proof {
        reveal(dispatcher_text);
    }
    let first = &d.functions[0];
    assert(d@.functions[0] == first@);
    let direct = crate::facade::go_return_sig(ctx, &first.returns);
    let dsig = match dispatcher_return_sig(direct.as_str()) {
        Some(x) => x,
        None => String::new(),
    };
    let sig = if dsig.as_str().unicode_len() == 0 {
        String::new()
    } else {
        cat2(" ", dsig.as_str())
    };
    let display = match recv {
        Some((_, c)) => cat3(c, ".", d.export_name.as_str()),
        None => d.export_name.clone(),
    };
    let mut out = match recv {
        Some((r, c)) => {
            let mut o = cat7("func (", r, " *", c, ") ", d.export_name.as_str(), "(args ...any)");
            push_string(&mut o, &sig);
            push_str(&mut o, " {\n");
            push_str(&mut o, "    if ");
            push_str(&mut o, r);
            push_str(&mut o, " == nil || ");
            push_str(&mut o, r);
            push_str(&mut o, ".ptr == nil {\n        ");
            let msg = cat2(c, " receiver is nil");
            let er = dispatcher_error_return(ctx, first, msg.as_str());
            push_string(&mut o, &er);
            push_str(&mut o, "\n    }\n");
            let cc = crate::calls::closed_check_text(r, c);
            push_string(&mut o, &cc);
            o
        },
        None => {
            let mut o = cat3("func ", d.export_name.as_str(), "(args ...any)");
            push_string(&mut o, &sig);
            push_str(&mut o, " {\n");
            o
        },
    };
    push_str(&mut out, "    switch len(args) {\n");
    let arities = arities_of(&d.functions);
    let inner_recv: Option<&str> = match recv {
        Some((r, _)) => Some(r),
        None => None,
    };
    let cases = render_cases(ctx, d, &arities, inner_recv, covered_handles, owned_opaque_value_handles);
    push_string(&mut out, &cases);
    push_str(&mut out, "    }\n");
    push_str(&mut out, "    ");
    let msg = cat2("no matching overload for ", display.as_str());
    let er = dispatcher_error_return(ctx, first, msg.as_str());
    push_string(&mut out, &er);
    push_str(&mut out, "\n");
    push_str(&mut out, "}\n");
    proof {
        assert(recv_of(recv_view(recv)) == (match inner_recv {
            Some(x) => Some(x@),
            None => None::<Seq<char>>,
        }));
        assert(arity_order(d@.functions, nats(arities@)));
        lemma_arity_list(d@.functions, nats(arities@));
    }
    out
}

pub fn render_free_function_dispatcher(
    ctx: &PipelineContext,
    d: &OverloadDispatcher,
    covered_handles: &Vec<String>,
    owned_opaque_value_handles: &Vec<String>,
) -> (r: String)
    requires
        dispatcher_renderable(ctx@, d@),
    ensures
        r@ == dispatcher_text(
            ctx@,
            d@,
            None,
            arity_list(d@.functions),
            strs(covered_handles@),
            strs(owned_opaque_value_handles@),
        ),
{
    render_dispatcher(ctx, d, None, covered_handles, owned_opaque_value_handles)
}

pub fn render_method_dispatcher(
    ctx: &PipelineContext,
    class: &crate::facade::FacadeClass,
    d: &OverloadDispatcher,
    covered_handles: &Vec<String>,
    owned_opaque_value_handles: &Vec<String>,
) -> (r: String)
    requires
        dispatcher_renderable(ctx@, d@),
    ensures
        r@ == dispatcher_text(
            ctx@,
            d@,
            Some((crate::case::receiver(class@.go_name), class@.go_name)),
            arity_list(d@.functions),
            strs(covered_handles@),
            strs(owned_opaque_value_handles@),
        ),
{
    let recv = crate::case::receiver_name(class.go_name.as_str());
    render_dispatcher(ctx, d, Some((recv.as_str(), class.go_name.as_str())), covered_handles, owned_opaque_value_handles)
}

/// The dispatchers over the free functions.
pub fn collect_free_function_dispatchers(ctx: &PipelineContext, functions: &Vec<IrFunction>) -> (r: Vec<OverloadDispatcher>)
    requires
        crate::facade::all_receivers_ok(functions_view(functions@)),
        symbols_distinct(crate::facade::keyed_all(functions_view(functions@))),
    ensures
        dispatchers_view(r@) == disp_list(ctx@, functions_view(functions@), export_list(functions_view(functions@))),
        forall|i: int| 0 <= i < r@.len() ==> #[trigger] dispatcher_sound(ctx@, functions_view(functions@), dispatchers_view(r@)[i]),
{
    collect_dispatchers(ctx, functions)
}

/// The dispatchers over a class's methods.
pub fn collect_method_dispatchers(ctx: &PipelineContext, class: &crate::facade::FacadeClass) -> (r: Vec<OverloadDispatcher>)
    requires
        crate::facade::all_receivers_ok(class@.methods),
        symbols_distinct(crate::facade::keyed_all(class@.methods)),
    ensures
        dispatchers_view(r@) == disp_list(ctx@, class@.methods, export_list(class@.methods)),
        forall|i: int| 0 <= i < r@.len() ==> #[trigger] dispatcher_sound(ctx@, class@.methods, dispatchers_view(r@)[i]),
{
    collect_dispatchers(ctx, &class.methods)
}

// ---------------------------------------------------------------------------
// The dispatchers as functions of their overloads
// ---------------------------------------------------------------------------

proof fn lemma_nat_sorted_unique(a: Seq<nat>, b: Seq<nat>)
    requires
        forall|i: int, j: int| 0 <= i < j < a.len() ==> #[trigger] a[i] < #[trigger] a[j],
        forall|i: int, j: int| 0 <= i < j < b.len() ==> #[trigger] b[i] < #[trigger] b[j],
        forall|x: nat| a.contains(x) <==> b.contains(x),
    ensures
        a == b,
    decreases a.len(),
{
    if a.len() == 0 {
        if b.len() > 0 {
            assert(b.contains(b[0]));
        }
        assert(a =~= b);
    } else {
        assert(a.contains(a[0]));
        assert(b.contains(b[0]));
        if a[0] != b[0] {
            let i = choose|i: int| 0 <= i < a.len() && a[i] == b[0];
            let j = choose|j: int| 0 <= j < b.len() && b[j] == a[0];
            if i > 0 {
                assert(a[0] < a[i]);
            }
            if j > 0 {
                assert(b[0] < b[j]);
            }
        }
        let a1 = a.drop_first();
        let b1 = b.drop_first();
        assert forall|x: nat| a1.contains(x) <==> b1.contains(x) by {
            if a1.contains(x) {
                let i = choose|i: int| 0 <= i < a1.len() && a1[i] == x;
                assert(a[i + 1] == x);
                assert(a[0] < a[i + 1]);
                assert(b.contains(x));
                let j = choose|j: int| 0 <= j < b.len() && b[j] == x;
                assert(b1[j - 1] == x);
            }
            if b1.contains(x) {
                let j = choose|j: int| 0 <= j < b1.len() && b1[j] == x;
                assert(b[j + 1] == x);
                assert(b[0] < b[j + 1]);
                assert(a.contains(x));
                let i = choose|i: int| 0 <= i < a.len() && a[i] == x;
                assert(a1[i - 1] == x);
            }
        }
        assert forall|i: int, j: int| 0 <= i < j < a1.len() implies #[trigger] a1[i] < #[trigger] a1[j] by {
            assert(a1[i] == a[i + 1] && a1[j] == a[j + 1]);
        }
        assert forall|i: int, j: int| 0 <= i < j < b1.len() implies #[trigger] b1[i] < #[trigger] b1[j] by {
            assert(b1[i] == b[i + 1] && b1[j] == b[j + 1]);
        }
        lemma_nat_sorted_unique(a1, b1);
        assert(a =~= seq![a[0]] + a1);
        assert(b =~= seq![b[0]] + b1);
    }
}

proof fn lemma_sorted_by_export_unique(s1: Seq<IrFunctionV>, s2: Seq<IrFunctionV>, g: Seq<IrFunctionV>)
    requires
        sorted_by_export(s1, g),
        sorted_by_export(s2, g),
    ensures
        s1 == s2,
{
    let k1 = s1.map_values(|f: IrFunctionV| facade_export(f));
    let k2 = s2.map_values(|f: IrFunctionV| facade_export(f));
    assert forall|i: int, j: int| 0 <= i < j < k1.len() implies lex_lt(k1[i], k1[j]) by {}
    assert forall|i: int, j: int| 0 <= i < j < k2.len() implies lex_lt(k2[i], k2[j]) by {}
    assert forall|x: Seq<char>| k1.contains(x) <==> k2.contains(x) by {
        if k1.contains(x) {
            let i = choose|i: int| 0 <= i < k1.len() && k1[i] == x;
            assert(s1.contains(s1[i]));
            assert(s2.contains(s1[i]));
            let j = choose|j: int| 0 <= j < s2.len() && s2[j] == s1[i];
            assert(k2[j] == x);
        }
        if k2.contains(x) {
            let j = choose|j: int| 0 <= j < k2.len() && k2[j] == x;
            assert(s2.contains(s2[j]));
            assert(s1.contains(s2[j]));
            let i = choose|i: int| 0 <= i < s1.len() && s1[i] == s2[j];
            assert(k1[i] == x);
        }
    }
    crate::facade::lemma_sorted_set_unique(k1, k2);
    assert forall|i: int| 0 <= i < s1.len() implies s1[i] == s2[i] by {
        assert(s1.contains(s1[i]));
        assert(s2.contains(s1[i]));
        let j = choose|j: int| 0 <= j < s2.len() && s2[j] == s1[i];
        assert(k2[j] == k1[i]);
        assert(k1[i] == k2[i]);
        if j < i {
            assert(lex_lt(k2[j], k2[i]));
            crate::assemble::lemma_lex_total(k2[i], k2[i]);
        } else if j > i {
            assert(lex_lt(k2[i], k2[j]));
            crate::assemble::lemma_lex_total(k2[i], k2[i]);
        }
    }
    assert(s1 =~= s2);
}

/// The argument counts of the overloads, each once, ascending.
pub open spec fn arity_list(fs: Seq<IrFunctionV>) -> Seq<nat> {
    choose|a: Seq<nat>| arity_order(fs, a)
}

/// The dispatcher names of the suffixed overloads, each once, in string order.
pub open spec fn export_list(fs: Seq<IrFunctionV>) -> Seq<Seq<char>> {
    choose|es: Seq<Seq<char>>| export_order(fs, es)
}

/// A group's overloads in the string order of their own Go names.
pub open spec fn sorted_group(g: Seq<IrFunctionV>) -> Seq<IrFunctionV> {
    choose|s: Seq<IrFunctionV>| sorted_by_export(s, g)
}

/// The dispatchers, name by name.
pub open spec fn disp_list(ctx: PipelineContextV, fs: Seq<IrFunctionV>, es: Seq<Seq<char>>) -> Seq<DispatcherV>
    decreases es.len(),
{
    if es.len() == 0 {
        seq![]
    } else {
        let g = group_of(fs, es[0]);
        if g.len() >= 2 && group_safe(ctx, g) {
            seq![DispatcherV { export_name: es[0], functions: sorted_group(g) }] + disp_list(ctx, fs, es.drop_first())
        } else {
            disp_list(ctx, fs, es.drop_first())
        }
    }
}

proof fn lemma_disp_list(ctx: PipelineContextV, fs: Seq<IrFunctionV>, es: Seq<Seq<char>>, ds: Seq<DispatcherV>)
    requires
        dispatchers_ok(ctx, fs, es, ds),
    ensures
        ds == disp_list(ctx, fs, es),
    decreases es.len(),
{
    if es.len() > 0 {
        let g = group_of(fs, es[0]);
        if g.len() >= 2 && group_safe(ctx, g) {
            lemma_disp_list(ctx, fs, es.drop_first(), ds.drop_first());
            assert(sorted_by_export(sorted_group(g), g));
            lemma_sorted_by_export_unique(ds[0].functions, sorted_group(g), g);
            assert(ds =~= seq![ds[0]] + ds.drop_first());
        } else {
            lemma_disp_list(ctx, fs, es.drop_first(), ds);
        }
    }
}

proof fn lemma_export_list(fs: Seq<IrFunctionV>, es: Seq<Seq<char>>)
    requires
        export_order(fs, es),
    ensures
        export_list(fs) == es,
{
    let c = export_list(fs);
    assert(export_order(fs, c));
    assert forall|x: Seq<char>| c.contains(x) <==> es.contains(x) by {}
    crate::facade::lemma_sorted_set_unique(c, es);
}

proof fn lemma_arity_list(fs: Seq<IrFunctionV>, a: Seq<nat>)
    requires
        arity_order(fs, a),
    ensures
        arity_list(fs) == a,
{
    let c = arity_list(fs);
    assert(arity_order(fs, c));
    assert forall|x: nat| c.contains(x) <==> a.contains(x) by {}
    lemma_nat_sorted_unique(c, a);
}

/// A dispatcher over a real group of two or more overloads that can share it.
pub open spec fn dispatcher_sound(ctx: PipelineContextV, fs: Seq<IrFunctionV>, d: DispatcherV) -> bool {
    let g = group_of(fs, d.export_name);
    &&& g.len() >= 2
    &&& group_safe(ctx, g)
    &&& sorted_by_export(d.functions, g)
}

proof fn lemma_dispatchers_sound(ctx: PipelineContextV, fs: Seq<IrFunctionV>, es: Seq<Seq<char>>, ds: Seq<DispatcherV>)
    requires
        dispatchers_ok(ctx, fs, es, ds),
    ensures
        forall|i: int| 0 <= i < ds.len() ==> #[trigger] dispatcher_sound(ctx, fs, ds[i]),
    decreases es.len(),
{
    if es.len() > 0 {
        let g = group_of(fs, es[0]);
        if g.len() >= 2 && group_safe(ctx, g) {
            lemma_dispatchers_sound(ctx, fs, es.drop_first(), ds.drop_first());
            assert forall|i: int| 0 <= i < ds.len() implies #[trigger] dispatcher_sound(ctx, fs, ds[i]) by {
                if i > 0 {
                    assert(ds[i] == ds.drop_first()[i - 1]);
                }
            }
        } else {
            lemma_dispatchers_sound(ctx, fs, es.drop_first(), ds);
        }
    }
}

/// What the overloads of a list need for its dispatchers to be rendered.
pub open spec fn overloads_ok(ctx: PipelineContextV, fs: Seq<IrFunctionV>) -> bool {
    &&& forall|k: int| 0 <= k < fs.len() ==> crate::calls::callback_params_renderable(disp_params(#[trigger] fs[k]))
    &&& forall|k: int| 0 <= k < fs.len() ==> crate::calls::return_renderable(ctx, (#[trigger] fs[k]).returns)
    &&& forall|k: int| 0 <= k < fs.len() ==> (#[trigger] fs[k]).params.len() < usize::MAX
}

proof fn lemma_member_facts(ctx: PipelineContextV, fs: Seq<IrFunctionV>, d: DispatcherV, k: int)
    requires
        dispatcher_sound(ctx, fs, d),
        overloads_ok(ctx, fs),
        0 <= k < d.functions.len(),
    ensures
        key_ok(ctx, d.functions[k]),
        disp_ret(return_sig(ctx, d.functions[k].returns)) is Some,
        crate::calls::callback_params_renderable(disp_params(d.functions[k])),
        crate::calls::return_renderable(ctx, d.functions[k].returns),
        d.functions[k].params.len() < usize::MAX,
{
    let g = group_of(fs, d.export_name);
    let x = d.functions[k];
    assert(d.functions.contains(x));
    assert(g.contains(x));
    let q = choose|q: int| 0 <= q < g.len() && g[q] == x;
    assert(key_ok(ctx, g[q]));
    assert(disp_ret(return_sig(ctx, g[q].returns)) is Some);
    lemma_group_member(fs, d.export_name, x);
    let p = choose|p: int| 0 <= p < fs.len() && fs[p] == x;
    assert(crate::calls::callback_params_renderable(disp_params(fs[p])));
    assert(crate::calls::return_renderable(ctx, fs[p].returns));
    assert(fs[p].params.len() < usize::MAX);
}

pub proof fn lemma_sound_renderable(ctx: PipelineContextV, fs: Seq<IrFunctionV>, d: DispatcherV)
    requires
        dispatcher_sound(ctx, fs, d),
        overloads_ok(ctx, fs),
    ensures
        dispatcher_renderable(ctx, d),
{
    assert(d.functions.len() >= 1);
    lemma_member_facts(ctx, fs, d, 0);
    assert forall|k: int| 0 <= k < d.functions.len() implies #[trigger] key_ok(ctx, d.functions[k]) by {
        lemma_member_facts(ctx, fs, d, k);
    }
    assert forall|k: int| 0 <= k < d.functions.len() implies crate::calls::callback_params_renderable(disp_params(#[trigger] d.functions[k])) by {
        lemma_member_facts(ctx, fs, d, k);
    }
    assert forall|k: int| 0 <= k < d.functions.len() implies crate::calls::return_renderable(ctx, (#[trigger] d.functions[k]).returns) by {
        lemma_member_facts(ctx, fs, d, k);
    }
    assert forall|k: int| 0 <= k < d.functions.len() implies (#[trigger] d.functions[k]).params.len() < usize::MAX by {
        lemma_member_facts(ctx, fs, d, k);
    }
}

} // verus!
