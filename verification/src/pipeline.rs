//! The steps between a parsed header set and the generated files: the context the
//! generators share, and the small files that make the output a Go package.
use vstd::prelude::*;

use crate::analysis::{collect_known_model_projections, insert_sorted, owner_order, projections_over};
use crate::assemble::{
    aliases_after, api_pairs, collect_known_enum_types, collect_preferred_model_aliases,
    collision_message, draft_module, duplicated, module_view, named_enums, normalize, renamed,
    sorted_strict, symbols_distinct, IrModuleV,
};
use crate::context::{alias_pairs, PipelineContext, PipelineContextV};
use crate::ir::{contains_str, copy_strings, functions_view, opt_view, strs, IrFunction, IrFunctionV, IrModule};
use crate::kind::{IrFunctionKind, IrTypeKind};
use crate::naming::{cpp_qualified, qualified};
use crate::parsed::{CppRecord, ParsedApi};
use crate::projection::projections_view;
use crate::text::{
    chars_of, ends_with, is_alnum, join, join_strings, lower, push_one, push_str, push_string,
    starts_with, starts_with_lit, string_of, views,
};

verus! {

// ---------------------------------------------------------------------------
// Sorted name sets
// ---------------------------------------------------------------------------

/// `r` lists the strings of `s`, each once, ascending.
pub open spec fn sorted_set_of(s: Seq<Seq<char>>, r: Seq<Seq<char>>) -> bool {
    &&& sorted_strict(r)
    &&& forall|x: Seq<char>| r.contains(x) <==> s.contains(x)
}

/// The strings of `v`, each once, ascending.
pub fn sorted_unique(v: &Vec<String>) -> (r: Vec<String>)
    ensures
        sorted_set_of(strs(v@), strs(r@)),
{
    let ghost s = strs(v@);
    let mut out: Vec<String> = Vec::new();
    let mut i: usize = 0;
    while i < v.len()
        invariant
            i <= v.len(),
            s == strs(v@),
            sorted_strict(strs(out@)),
            forall|x: Seq<char>| strs(out@).contains(x) <==> s.take(i as int).contains(x),
        decreases v.len() - i,
    {
        insert_sorted(&mut out, &v[i]);
        proof {
            assert(s[i as int] == v@[i as int]@);
            let t1 = s.take(i + 1);
            let t0 = s.take(i as int);
            assert forall|x: Seq<char>| t1.contains(x) <==> (t0.contains(x) || x == s[i as int]) by {
                if t1.contains(x) {
                    let k = choose|k: int| 0 <= k < t1.len() && t1[k] == x;
                    if k < i {
                        assert(t0[k] == x);
                    }
                }
                if t0.contains(x) {
                    let k = choose|k: int| 0 <= k < t0.len() && t0[k] == x;
                    assert(t1[k] == x);
                }
                if x == s[i as int] {
                    assert(t1[i as int] == x);
                }
            }
        }
        i = i + 1;
    }
    assert(s.take(i as int) =~= s);
    out
}

pub open spec fn record_names(rs: Seq<CppRecord>) -> Seq<Seq<char>> {
    rs.map_values(|r: CppRecord| qualified(strs(r.namespace@), r.name@))
}

/// The qualified names of the parsed records, each once, ascending.
pub fn collect_known_model_types(parsed: &ParsedApi) -> (r: Vec<String>)
    ensures
        sorted_set_of(record_names(parsed.records@), strs(r@)),
{
    let mut names: Vec<String> = Vec::new();
    let mut i: usize = 0;
    while i < parsed.records.len()
        invariant
            i <= parsed.records.len(),
            strs(names@) =~= record_names(parsed.records@).take(i as int),
        decreases parsed.records.len() - i,
    {
        let r = &parsed.records[i];
        let q = cpp_qualified(r.namespace.as_slice(), r.name.as_str());
        let ghost before = strs(names@);
        names.push(q);
        assert(strs(names@) =~= before.push(q@));
        i = i + 1;
    }
    assert(record_names(parsed.records@).take(i as int) =~= record_names(parsed.records@));
    sorted_unique(&names)
}

/// The qualified names of the named parsed enums, each once, ascending.
pub fn collect_sorted_enum_types(parsed: &ParsedApi) -> (r: Vec<String>)
    ensures
        sorted_set_of(named_enums(parsed.enums@), strs(r@)),
{
    let names = collect_known_enum_types(parsed);
    sorted_unique(&names)
}

// ---------------------------------------------------------------------------
// The pipeline context
// ---------------------------------------------------------------------------

pub open spec fn module_result(r: Result<IrModule, String>) -> Result<IrModuleV, Seq<char>> {
    match r {
        Ok(m) => Ok(module_view(m)),
        Err(e) => Err(e@),
    }
}

/// What normalizing `api` under `ctx` gives: the drafted module with its symbols
/// disambiguated, or the first error, or the collision report.
pub open spec fn normalize_outcome(ctx: PipelineContextV, api: ParsedApi, r: Result<IrModuleV, Seq<char>>) -> bool {
    match draft_module(ctx, api) {
        Err(e) => r == Err::<IrModuleV, Seq<char>>(e),
        Ok(m) => if symbols_distinct(renamed(m.functions)) {
            r == Ok::<IrModuleV, Seq<char>>(IrModuleV { functions: renamed(m.functions), ..m })
        } else {
            r is Err && exists|syms: Seq<Seq<char>>|
                sorted_strict(syms) && syms.to_set() == duplicated(renamed(m.functions))
                    && r->Err_0 == collision_message(renamed(m.functions), syms)
        },
    }
}

/// The context with the model types, enum types and preferred aliases of a parsed API.
pub open spec fn scoped_context(
    ctx: PipelineContextV,
    model_types: Seq<Seq<char>>,
    enum_types: Seq<Seq<char>>,
    api: ParsedApi,
) -> PipelineContextV {
    PipelineContextV {
        known_model_types: model_types,
        known_enum_types: enum_types,
        preferred_model_aliases: aliases_after(seq![], api_pairs(api)),
        ..ctx
    }
}

pub open spec fn context_result(r: Result<PipelineContext, String>) -> Result<PipelineContextV, Seq<char>> {
    match r {
        Ok(c) => Ok(c@),
        Err(e) => Err(e@),
    }
}

/// Building the context from `ctx` and `api` with the sorted model types `mt`, the sorted
/// enum types `et` and the normalization outcome `nr` gives `r`.
pub open spec fn context_outcome(
    ctx: PipelineContextV,
    api: ParsedApi,
    mt: Seq<Seq<char>>,
    et: Seq<Seq<char>>,
    nr: Result<IrModuleV, Seq<char>>,
    r: Result<PipelineContextV, Seq<char>>,
) -> bool {
    let s = scoped_context(ctx, mt, et, api);
    &&& sorted_set_of(record_names(api.records@), mt)
    &&& sorted_set_of(named_enums(api.enums@), et)
    &&& normalize_outcome(s, api, nr)
    &&& match nr {
        Err(e) => r == Err::<PipelineContextV, Seq<char>>(e),
        Ok(m) => exists|owners: Seq<Seq<char>>|
            owner_order(m.functions, owners) && match projections_over(s, m.functions, owners) {
                Err(e) => r == Err::<PipelineContextV, Seq<char>>(e),
                Ok(ps) => r == Ok::<PipelineContextV, Seq<char>>(
                    PipelineContextV { known_model_projections: ps, ..s },
                ),
            },
    }
}

/// The context every generator works with: the parsed model types, enum types and
/// preferred aliases added, the API normalized under it, and the model projections of
/// that module added. A normalization or projection error is returned as it is.
pub fn build_pipeline_context(ctx: &PipelineContext, parsed: &ParsedApi) -> (r: Result<
    PipelineContext,
    String,
>)
    ensures
        exists|mt: Seq<Seq<char>>, et: Seq<Seq<char>>, nr: Result<IrModuleV, Seq<char>>|
            #[trigger] context_outcome(ctx@, *parsed, mt, et, nr, context_result(r)),
{
    let model_types = collect_known_model_types(parsed);
    let enum_types = collect_sorted_enum_types(parsed);
    let aliases = collect_preferred_model_aliases(parsed);
    let ghost mt = strs(model_types@);
    let ghost et = strs(enum_types@);
    let scoped = ctx.copy().with_known_model_types(model_types).with_known_enum_types(
        enum_types,
    ).with_preferred_model_aliases(aliases);
    assert(scoped@ == scoped_context(ctx@, mt, et, *parsed));
    let normalized = normalize(&scoped, parsed);
    let ghost nr = module_result(normalized);
    assert(normalize_outcome(scoped@, *parsed, nr));
    let r = match normalized {
        Err(e) => Err(e),
        Ok(ir) => {
            let projections = collect_known_model_projections(&scoped, &ir);
            match projections {
                Err(e) => Err(e),
                Ok(ps) => Ok(scoped.with_known_model_projections(ps)),
            }
        },
    };
    assert(context_outcome(ctx@, *parsed, mt, et, nr, context_result(r)));
    r
}

// ---------------------------------------------------------------------------
// Classes and owned values
// ---------------------------------------------------------------------------

pub open spec fn has_method_on(fs: Seq<IrFunctionV>, h: Seq<char>) -> bool {
    exists|i: int| 0 <= i < fs.len() && fs[i].kind == IrFunctionKind::Method && fs[i].method_of == Some(h)
}

pub open spec fn has_destructor_on(fs: Seq<IrFunctionV>, h: Seq<char>) -> bool {
    exists|i: int| 0 <= i < fs.len() && fs[i].kind == IrFunctionKind::Destructor && fs[i].method_of == Some(h)
}

/// The handles of the classes that get a Go wrapper struct: those with a method and a
/// destructor.
pub open spec fn is_class_handle(fs: Seq<IrFunctionV>, h: Seq<char>) -> bool {
    has_method_on(fs, h) && has_destructor_on(fs, h)
}

fn method_on(functions: &Vec<IrFunction>, h: &String) -> (b: bool)
    ensures
        b == has_method_on(functions_view(functions@), h@),
{
    let ghost fs = functions_view(functions@);
    let hv = chars_of(h.as_str());
    let mut i: usize = 0;
    while i < functions.len()
        invariant
            i <= functions.len(),
            fs == functions_view(functions@),
            hv@ == h@,
            forall|k: int| 0 <= k < i ==> !(fs[k].kind == IrFunctionKind::Method && fs[k].method_of == Some(h@)),
        decreases functions.len() - i,
    {
        let f = &functions[i];
        assert(fs[i as int] == f@);
        if f.kind == IrFunctionKind::Method {
            match &f.method_of {
                Some(m) => {
                    if crate::text::seq_eq(chars_of(m.as_str()).as_slice(), hv.as_slice()) {
                        return true;
                    }
                },
                None => {},
            }
        }
        i = i + 1;
    }
    false
}

pub open spec fn destructor_before(fs: Seq<IrFunctionV>, n: int, h: Seq<char>) -> bool {
    exists|k: int| 0 <= k < n && fs[k].kind == IrFunctionKind::Destructor && fs[k].method_of == Some(h)
}

/// The handles of the classes that get a Go wrapper struct, each once, ascending.
pub fn class_handles_with_methods(ir: &IrModule) -> (r: Vec<String>)
    ensures
        sorted_strict(strs(r@)),
        forall|h: Seq<char>| strs(r@).contains(h) <==> is_class_handle(functions_view(ir.functions@), h),
{
    let ghost fs = functions_view(ir.functions@);
    let mut out: Vec<String> = Vec::new();
    let mut i: usize = 0;
    while i < ir.functions.len()
        invariant
            i <= ir.functions.len(),
            fs == functions_view(ir.functions@),
            fs.len() == ir.functions@.len(),
            sorted_strict(strs(out@)),
            forall|h: Seq<char>|
                #[trigger] strs(out@).contains(h) <==> (has_method_on(fs, h) && destructor_before(
                    fs,
                    i as int,
                    h,
                )),
        decreases ir.functions.len() - i,
    {
        let f = &ir.functions[i];
        assert(fs[i as int] == f@);
        let ghost before = strs(out@);
        let ghost old_i = i as int;
        if f.kind == IrFunctionKind::Destructor {
            match &f.method_of {
                Some(h) => {
                    if method_on(&ir.functions, h) {
                        insert_sorted(&mut out, h);
                    }
                },
                None => {},
            }
        }
        i = i + 1;
        proof {
            assert forall|h: Seq<char>|
                #[trigger] strs(out@).contains(h) <==> (has_method_on(fs, h) && destructor_before(
                    fs,
                    i as int,
                    h,
                )) by {
                assert(before.contains(h) <==> (has_method_on(fs, h) && destructor_before(
                    fs,
                    old_i,
                    h,
                )));
                if destructor_before(fs, i as int, h) {
                    let k = choose|k: int|
                        0 <= k < i && fs[k].kind == IrFunctionKind::Destructor && fs[k].method_of == Some(h);
                    if k < old_i {
                        assert(destructor_before(fs, old_i, h));
                    }
                }
                if destructor_before(fs, old_i, h) {
                    let k = choose|k: int|
                        0 <= k < old_i && fs[k].kind == IrFunctionKind::Destructor && fs[k].method_of == Some(h);
                    assert(destructor_before(fs, i as int, h));
                }
            }
        }
    }
    proof {
        assert forall|h: Seq<char>| destructor_before(fs, fs.len() as int, h) == has_destructor_on(fs, h) by {}
    }
    out
}

/// Whether `h` is a handle of a model value returned by some function that no projection
/// and no `covered` handle accounts for: such values are owned by a Go wrapper of their own.
pub open spec fn needs_go_ownership(
    ctx: PipelineContextV,
    fs: Seq<IrFunctionV>,
    covered: Seq<Seq<char>>,
    h: Seq<char>,
) -> bool {
    &&& exists|i: int| 0 <= i < fs.len() && crate::header::returns_model_value(fs[i], h)
    &&& !covered.contains(h)
    &&& !(exists|k: int|
        0 <= k < ctx.known_model_projections.len() && ctx.known_model_projections[k].handle_name == h)
}

fn projection_handle_listed(ctx: &PipelineContext, h: &String) -> (b: bool)
    ensures
        b == exists|k: int|
            0 <= k < ctx@.known_model_projections.len() && ctx@.known_model_projections[k].handle_name
                == h@,
{
    let ghost ps = ctx@.known_model_projections;
    let hv = chars_of(h.as_str());
    let mut k: usize = 0;
    while k < ctx.known_model_projections.len()
        invariant
            k <= ctx.known_model_projections.len(),
            ps == ctx@.known_model_projections,
            hv@ == h@,
            forall|q: int| 0 <= q < k ==> ps[q].handle_name != h@,
        decreases ctx.known_model_projections.len() - k,
    {
        let n = chars_of(ctx.known_model_projections[k].handle_name.as_str());
        assert(ps[k as int].handle_name == n@);
        if crate::text::seq_eq(n.as_slice(), hv.as_slice()) {
            return true;
        }
        k = k + 1;
    }
    false
}

/// The handles of model values that need a Go wrapper of their own, each once, ascending.
pub fn opaque_model_value_handles_needing_go_ownership(
    ctx: &PipelineContext,
    ir: &IrModule,
    covered: &Vec<String>,
) -> (r: Vec<String>)
    ensures
        sorted_strict(strs(r@)),
        forall|h: Seq<char>|
            strs(r@).contains(h) <==> needs_go_ownership(ctx@, functions_view(ir.functions@), strs(covered@), h),
{
    let ghost fs = functions_view(ir.functions@);
    let mut out: Vec<String> = Vec::new();
    let mut i: usize = 0;
    while i < ir.functions.len()
        invariant
            i <= ir.functions.len(),
            fs == functions_view(ir.functions@),
            sorted_strict(strs(out@)),
            forall|h: Seq<char>|
                strs(out@).contains(h) <==> (needs_go_ownership(ctx@, fs.take(i as int), strs(covered@), h)),
        decreases ir.functions.len() - i,
    {
        let f = &ir.functions[i];
        assert(fs[i as int] == f@);
        if f.returns.kind == IrTypeKind::ModelValue {
            match &f.returns.handle {
                Some(h) => {
                    let hv = chars_of(h.as_str());
                    if !contains_str(covered, hv.as_slice()) && !projection_handle_listed(ctx, h) {
                        insert_sorted(&mut out, h);
                    }
                },
                None => {},
            }
        }
        proof {
            assert forall|h: Seq<char>|
                needs_go_ownership(ctx@, fs.take(i + 1), strs(covered@), h) <==> (needs_go_ownership(
                    ctx@,
                    fs.take(i as int),
                    strs(covered@),
                    h,
                ) || (crate::header::returns_model_value(fs[i as int], h) && !strs(covered@).contains(h)
                    && !(exists|k: int|
                    0 <= k < ctx@.known_model_projections.len()
                        && ctx@.known_model_projections[k].handle_name == h))) by {
                let t1 = fs.take(i + 1);
                let t0 = fs.take(i as int);
                if exists|q: int| 0 <= q < t1.len() && crate::header::returns_model_value(t1[q], h) {
                    let q = choose|q: int| 0 <= q < t1.len() && crate::header::returns_model_value(t1[q], h);
                    if q < i {
                        assert(t0[q] == t1[q]);
                    }
                }
                if exists|q: int| 0 <= q < t0.len() && crate::header::returns_model_value(t0[q], h) {
                    let q = choose|q: int| 0 <= q < t0.len() && crate::header::returns_model_value(t0[q], h);
                    assert(t1[q] == t0[q]);
                }
                if crate::header::returns_model_value(fs[i as int], h) {
                    assert(t1[i as int] == fs[i as int]);
                }
            }
        }
        i = i + 1;
    }
    assert(fs.take(i as int) =~= fs);
    out
}

// ---------------------------------------------------------------------------
// Go package files
// ---------------------------------------------------------------------------

/// The compiler flags that carry over into cgo: `-I`/`-D` with their values (as one or
/// two arguments) and `-std=`; an `-isystem` and its value are dropped.
pub open spec fn cxx_scan(raw: Seq<Seq<char>>, i: int) -> Seq<Seq<char>>
    decreases raw.len() - i,
{
    if i < 0 || i >= raw.len() {
        seq![]
    } else {
        let a = raw[i];
        let after_pair = if i + 2 <= raw.len() {
            cxx_scan(raw, i + 2)
        } else {
            seq![]
        };
        if a == "-I"@ || a == "-D"@ {
            if i + 1 < raw.len() {
                seq![a, raw[i + 1]] + after_pair
            } else {
                after_pair
            }
        } else if a == "-isystem"@ {
            after_pair
        } else if (starts_with(a, "-I"@) && a.len() > 2) || (starts_with(a, "-D"@) && a.len() > 2)
            || starts_with(a, "-std="@) {
            seq![a] + cxx_scan(raw, i + 1)
        } else {
            cxx_scan(raw, i + 1)
        }
    }
}

pub open spec fn cxxflags(raw: Seq<Seq<char>>) -> Seq<Seq<char>> {
    seq!["-I${SRCDIR}"@] + cxx_scan(raw, 0)
}

/// The C++ flags of the generated package: the package directory, then the include
/// directories, defines and language standard of the clang arguments as the
/// configuration wrote them (before environment expansion and path resolution).
pub fn exported_cxxflags(ctx: &PipelineContext) -> (r: Vec<String>)
    ensures
        strs(r@) == cxxflags(ctx@.raw_clang_args),
{
    let raw = &ctx.raw_clang_args;
    let ghost rv = strs(raw@);
    let mut flags: Vec<String> = Vec::new();
    flags.push(String::from_str("-I${SRCDIR}"));
    assert(strs(flags@) =~= seq!["-I${SRCDIR}"@]);
    let mut i: usize = 0;
    while i < raw.len()
        invariant
            i <= raw.len(),
            rv == strs(raw@),
            rv == ctx@.raw_clang_args,
            strs(flags@) + cxx_scan(rv, i as int) == cxxflags(rv),
        decreases raw.len() - i,
    {
        let a = chars_of(raw[i].as_str());
        assert(rv[i as int] == a@);
        let ghost before = strs(flags@);
        let ghost old_i = i as int;
        if eq_lit_pub(a.as_slice(), "-I") || eq_lit_pub(a.as_slice(), "-D") {
            if i + 1 < raw.len() {
                flags.push(raw[i].clone());
                flags.push(raw[i + 1].clone());
                assert(strs(flags@) =~= before + seq![rv[i as int], rv[i + 1]]);
                i = i + 2;
            } else {
                i = raw.len();
            }
        } else if eq_lit_pub(a.as_slice(), "-isystem") {
            if i + 1 < raw.len() {
                i = i + 2;
            } else {
                i = raw.len();
            }
        } else {
            if (starts_with_lit(a.as_slice(), "-I") && a.len() > 2) || (starts_with_lit(
                a.as_slice(),
                "-D",
            ) && a.len() > 2) || starts_with_lit(a.as_slice(), "-std=") {
                flags.push(raw[i].clone());
                assert(strs(flags@) =~= before + seq![rv[i as int]]);
            }
            i = i + 1;
        }
        proof {
            if i >= raw.len() {
                assert(cxx_scan(rv, i as int) =~= Seq::<Seq<char>>::empty());
            }
            assert(before + cxx_scan(rv, old_i) == cxxflags(rv));
        }
    }
    assert(cxx_scan(rv, i as int) =~= Seq::<Seq<char>>::empty());
    assert(strs(flags@) + Seq::<Seq<char>>::empty() =~= strs(flags@));
    flags
}

fn eq_lit_pub(s: &[char], lit: &str) -> (b: bool)
    ensures
        b == (s@ == lit@),
{
    crate::text::eq_lit(s, lit)
}

/// A Go package name from a directory name: ASCII letters and digits lowercased, `_`
/// kept, anything else as `_`; `bindings` where the directory has no name.
pub open spec fn package_char(c: char) -> char {
    if is_alnum(c) || c == '_' {
        lower(c)
    } else {
        '_'
    }
}

pub open spec fn package_name(dir: Seq<char>) -> Seq<char> {
    match crate::config::file_name(dir) {
        Some(n) => if n.len() > 0 {
            Seq::new(n.len(), |i: int| package_char(n[i]))
        } else {
            "bindings"@
        },
        None => "bindings"@,
    }
}

pub fn go_package_name(dir: &str) -> (r: String)
    ensures
        r@ == package_name(dir@),
{
    let v = chars_of(dir);
    let n = match crate::config::file_name_of(v.as_slice()) {
        Some(n) => n,
        None => return String::from_str("bindings"),
    };
    if n.len() == 0 {
        return String::from_str("bindings");
    }
    let mut out: Vec<char> = Vec::new();
    let mut i: usize = 0;
    while i < n.len()
        invariant
            i <= n.len(),
            out@ =~= Seq::new(i as nat, |k: int| package_char(n@[k])),
        decreases n.len() - i,
    {
        let c = n[i];
        let m = if crate::text::char_is_alnum(c) || c == '_' {
            crate::text::char_lower(c)
        } else {
            '_'
        };
        out.push(m);
        i = i + 1;
    }
    string_of(out.as_slice())
}

pub open spec fn go_mod_text(module: Seq<char>, version: Seq<char>) -> Seq<char> {
    "module "@ + module + "\n\ngo "@ + version + "\n"@
}

/// `go.mod` for the generated package.
pub fn render_go_mod(go_module: &str, go_version: &str) -> (r: String)
    ensures
        r@ == go_mod_text(go_module@, go_version@),
{
    let mut out = String::from_str("module ");
    push_str(&mut out, go_module);
    push_str(&mut out, "\n\ngo ");
    push_str(&mut out, go_version);
    push_str(&mut out, "\n");
    out
}

/// `build_flags.go`: the cgo compiler flags, and the linker flags where any are configured.
pub open spec fn build_flags_text(ctx: PipelineContextV) -> Seq<char> {
    let head = "package "@ + package_name(ctx.config.output.dir) + "\n\n/*\n#cgo CFLAGS: -I${SRCDIR}\n#cgo CXXFLAGS: "@
        + join(cxxflags(ctx.raw_clang_args), " "@);
    if ctx.config.input.ldflags.len() == 0 {
        head + "\n*/\nimport \"C\"\n"@
    } else {
        head + "\n#cgo LDFLAGS: "@ + join(ctx.config.input.ldflags, " "@) + "\n*/\nimport \"C\"\n"@
    }
}

pub fn render_build_flags(ctx: &PipelineContext) -> (r: String)
    ensures
        r@ == build_flags_text(ctx@),
{
    let package = go_package_name(ctx.config.output.dir.as_str());
    let flags = exported_cxxflags(ctx);
    let mut out = String::from_str("package ");
    push_string(&mut out, &package);
    push_str(&mut out, "\n\n/*\n#cgo CFLAGS: -I${SRCDIR}\n#cgo CXXFLAGS: ");
    push_string(&mut out, &join_strings(&flags, " "));
    if ctx.config.input.ldflags.len() == 0 {
        push_str(&mut out, "\n*/\nimport \"C\"\n");
    } else {
        push_str(&mut out, "\n#cgo LDFLAGS: ");
        push_string(&mut out, &join_strings(&ctx.config.input.ldflags, " "));
        push_str(&mut out, "\n*/\nimport \"C\"\n");
    }
    out
}

/// Trailing blank lines removed, keeping one final newline.
pub open spec fn trim_blank_tail(s: Seq<char>) -> Seq<char>
    decreases s.len(),
{
    if s.len() >= 2 && s[s.len() - 1] == '\n' && s[s.len() - 2] == '\n' {
        trim_blank_tail(s.drop_last())
    } else {
        s
    }
}

pub fn trim_trailing_blank_lines(contents: &str) -> (r: String)
    ensures
        r@ == trim_blank_tail(contents@),
{
    let v = chars_of(contents);
    let mut n: usize = v.len();
    assert(v@.take(n as int) =~= v@);
    while n >= 2 && v[n - 1] == '\n' && v[n - 2] == '\n'
        invariant
            n <= v.len(),
            trim_blank_tail(v@.take(n as int)) == trim_blank_tail(v@),
        decreases n,
    {
        assert(v@.take(n as int).drop_last() =~= v@.take(n - 1));
        n = n - 1;
    }
    let t = crate::text::slice_vec(v.as_slice(), 0, n);
    assert(t@ =~= v@.take(n as int));
    string_of(t.as_slice())
}

// ---------------------------------------------------------------------------
// Several headers
// ---------------------------------------------------------------------------

pub open spec fn multi_header_message() -> Seq<char> {
    "multi-header generation does not support explicit output.header/source/ir overrides; leave them as defaults to emit one wrapper set per header"@
}

/// Several headers get one wrapper set each, named after the header; explicit output
/// names cannot serve more than one header.
pub fn multi_header_error(config: &crate::config::Config, header_count: usize) -> (r: Option<String>)
    ensures
        match r {
            Some(m) => header_count > 1 && !crate::config::uses_default_names(config@.output)
                && m@ == multi_header_message(),
            None => !(header_count > 1 && !crate::config::uses_default_names(config@.output)),
        },
{
    if header_count > 1 && !config.uses_default_output_names() {
        Some(String::from_str(
            "multi-header generation does not support explicit output.header/source/ir overrides; leave them as defaults to emit one wrapper set per header",
        ))
    } else {
        None
    }
}

pub open spec fn listed_in_any(ls: Seq<Seq<Seq<char>>>, h: Seq<char>) -> bool {
    exists|k: int| 0 <= k < ls.len() && ls[k].contains(h)
}

pub open spec fn lists_view(v: Seq<Vec<String>>) -> Seq<Seq<Seq<char>>> {
    v.map_values(|l: Vec<String>| strs(l@))
}

/// Every handle of every list, each once, ascending.
pub fn union_handles(lists: &Vec<Vec<String>>) -> (r: Vec<String>)
    ensures
        sorted_strict(strs(r@)),
        forall|h: Seq<char>| strs(r@).contains(h) <==> listed_in_any(lists_view(lists@), h),
{
    let ghost ls = lists_view(lists@);
    let mut out: Vec<String> = Vec::new();
    let mut k: usize = 0;
    while k < lists.len()
        invariant
            k <= lists.len(),
            ls == lists_view(lists@),
            sorted_strict(strs(out@)),
            forall|h: Seq<char>| strs(out@).contains(h) <==> listed_in_any(ls.take(k as int), h),
        decreases lists.len() - k,
    {
        let l = &lists[k];
        assert(ls[k as int] == strs(l@));
        let mut j: usize = 0;
        while j < l.len()
            invariant
                j <= l.len(),
                ls == lists_view(lists@),
                ls[k as int] == strs(l@),
                k < lists.len(),
                sorted_strict(strs(out@)),
                forall|h: Seq<char>|
                    strs(out@).contains(h) <==> (listed_in_any(ls.take(k as int), h) || strs(l@).take(
                        j as int,
                    ).contains(h)),
            decreases l.len() - j,
        {
            let ghost before = strs(out@);
            insert_sorted(&mut out, &l[j]);
            proof {
                let x = l@[j as int]@;
                let t1 = strs(l@).take(j + 1);
                let t0 = strs(l@).take(j as int);
                assert(t1 =~= t0.push(x));
                assert forall|h: Seq<char>| t1.contains(h) <==> (t0.contains(h) || h == x) by {
                    if t1.contains(h) {
                        let w = choose|w: int| 0 <= w < t1.len() && t1[w] == h;
                        if w < j {
                            assert(t0[w] == h);
                        }
                    }
                    if t0.contains(h) {
                        let w = choose|w: int| 0 <= w < t0.len() && t0[w] == h;
                        assert(t1[w] == h);
                    }
                    if h == x {
                        assert(t1[j as int] == h);
                    }
                }
                assert forall|h: Seq<char>|
                    strs(out@).contains(h) <==> (listed_in_any(ls.take(k as int), h) || t1.contains(h)) by {
                    assert(before.contains(h) <==> (listed_in_any(ls.take(k as int), h) || t0.contains(h)));
                }
            }
            j = j + 1;
        }
        proof {
            assert(strs(l@).take(j as int) =~= strs(l@));
            let t1 = ls.take(k + 1);
            let t0 = ls.take(k as int);
            assert forall|h: Seq<char>| listed_in_any(t1, h) <==> (listed_in_any(t0, h) || ls[k as int].contains(h)) by {
                if listed_in_any(t1, h) {
                    let q = choose|q: int| 0 <= q < t1.len() && t1[q].contains(h);
                    if q < k {
                        assert(t0[q] == t1[q]);
                    }
                }
                if listed_in_any(t0, h) {
                    let q = choose|q: int| 0 <= q < t0.len() && t0[q].contains(h);
                    assert(t1[q] == t0[q]);
                }
                if ls[k as int].contains(h) {
                    assert(t1[k as int] == ls[k as int]);
                }
            }
        }
        k = k + 1;
    }
    assert(ls.take(k as int) =~= ls);
    out
}

/// The handles of list `k` that no earlier list has.
pub open spec fn first_claims(ls: Seq<Seq<Seq<char>>>, k: int) -> Seq<Seq<char>> {
    ls[k].filter(|h: Seq<char>| !listed_in_any(ls.take(k), h))
}

/// Each handle is owned by the first list that names it: for each list, the handles no
/// earlier list has, in their order.
pub fn claim_owned_handles(lists: &Vec<Vec<String>>) -> (r: Vec<Vec<String>>)
    ensures
        r@.len() == lists@.len(),
        forall|k: int| 0 <= k < r@.len() ==> strs(#[trigger] r@[k]@) == first_claims(lists_view(lists@), k),
{
    let ghost ls = lists_view(lists@);
    let mut out: Vec<Vec<String>> = Vec::new();
    let mut k: usize = 0;
    while k < lists.len()
        invariant
            k <= lists.len(),
            ls == lists_view(lists@),
            out@.len() == k,
            forall|q: int| 0 <= q < k ==> strs(#[trigger] out@[q]@) == first_claims(ls, q),
        decreases lists.len() - k,
    {
        let l = &lists[k];
        assert(ls[k as int] == strs(l@));
        let mut mine: Vec<String> = Vec::new();
        let mut j: usize = 0;
        while j < l.len()
            invariant
                j <= l.len(),
                k < lists.len(),
                ls == lists_view(lists@),
                ls[k as int] == strs(l@),
                strs(mine@) == strs(l@).take(j as int).filter(
                    |h: Seq<char>| !listed_in_any(ls.take(k as int), h),
                ),
            decreases l.len() - j,
        {
            let h = &l[j];
            let hv = chars_of(h.as_str());
            let mut taken = false;
            let mut q: usize = 0;
            while q < k
                invariant
                    q <= k,
                    k < lists.len(),
                    ls == lists_view(lists@),
                    hv@ == h@,
                    taken == listed_in_any(ls.take(q as int), h@),
                decreases k - q,
            {
                assert(ls[q as int] == strs(lists@[q as int]@));
                let c = contains_str(&lists[q], hv.as_slice());
                proof {
                    let t1 = ls.take(q + 1);
                    let t0 = ls.take(q as int);
                    if listed_in_any(t1, h@) {
                        let w = choose|w: int| 0 <= w < t1.len() && t1[w].contains(h@);
                        if w < q {
                            assert(t0[w] == t1[w]);
                        }
                    }
                    if listed_in_any(t0, h@) {
                        let w = choose|w: int| 0 <= w < t0.len() && t0[w].contains(h@);
                        assert(t1[w] == t0[w]);
                    }
                    if c {
                        assert(t1[q as int] == ls[q as int]);
                    }
                }
                taken = taken || c;
                q = q + 1;
            }
            proof {
                reveal(Seq::filter);
                assert(strs(l@).take(j + 1).drop_last() =~= strs(l@).take(j as int));
                assert(strs(l@).take(j + 1).last() == h@);
            }
            if !taken {
                let ghost before = strs(mine@);
                mine.push(h.clone());
                assert(strs(mine@) =~= before.push(h@));
            }
            j = j + 1;
        }
        assert(strs(l@).take(j as int) =~= strs(l@));
        out.push(mine);
        k = k + 1;
    }
    out
}

/// The handles already declared when unit `k`'s Go facade is rendered: those of every
/// `base` list, then the opaque types of the units before it.
pub open spec fn emitted_before(
    base: Seq<Seq<Seq<char>>>,
    unit_opaques: Seq<Seq<Seq<char>>>,
    k: int,
    h: Seq<char>,
) -> bool {
    listed_in_any(base + unit_opaques.take(k), h)
}

/// For each unit in turn, the sorted handles already declared before it: the handles of
/// the `base` lists (class handles, globally owned handles), then the opaque types of each
/// earlier unit.
pub fn emitted_handles_per_unit(base: &Vec<Vec<String>>, unit_opaques: &Vec<Vec<String>>) -> (r: Vec<
    Vec<String>,
>)
    ensures
        r.len() == unit_opaques.len(),
        forall|k: int| 0 <= k < r.len() ==> sorted_strict(#[trigger] strs(r@[k]@)),
        forall|k: int, h: Seq<char>| 0 <= k < r.len() ==> (#[trigger] strs(r@[k]@).contains(h)
            <==> emitted_before(lists_view(base@), lists_view(unit_opaques@), k, h)),
{
    let ghost bv = lists_view(base@);
    let ghost ov = lists_view(unit_opaques@);
    let mut acc: Vec<Vec<String>> = Vec::new();
    let mut i: usize = 0;
    while i < base.len()
        invariant
            i <= base.len(),
            bv == lists_view(base@),
            lists_view(acc@) =~= bv.take(i as int),
        decreases base.len() - i,
    {
        let ghost before = lists_view(acc@);
        acc.push(copy_strings(&base[i]));
        assert(lists_view(acc@) =~= before.push(bv[i as int]));
        assert(bv.take(i + 1) =~= bv.take(i as int).push(bv[i as int]));
        i = i + 1;
    }
    assert(bv.take(i as int) =~= bv);
    assert(ov.take(0) =~= Seq::<Seq<Seq<char>>>::empty());
    let mut r: Vec<Vec<String>> = Vec::new();
    let mut k: usize = 0;
    while k < unit_opaques.len()
        invariant
            k <= unit_opaques.len(),
            bv == lists_view(base@),
            ov == lists_view(unit_opaques@),
            lists_view(acc@) =~= bv + ov.take(k as int),
            r.len() == k,
            forall|j: int| 0 <= j < k ==> sorted_strict(#[trigger] strs(r@[j]@)),
            forall|j: int, h: Seq<char>| 0 <= j < k ==> (#[trigger] strs(r@[j]@).contains(h)
                <==> emitted_before(bv, ov, j, h)),
        decreases unit_opaques.len() - k,
    {
        let u = union_handles(&acc);
        let ghost rv = r@;
        r.push(u);
        assert forall|j: int, h: Seq<char>| 0 <= j < k + 1 implies (#[trigger] strs(r@[j]@).contains(h)
            <==> emitted_before(bv, ov, j, h)) by {
            if j < k {
                assert(r@[j] == rv[j]);
            }
        }
        assert forall|j: int| 0 <= j < k + 1 implies sorted_strict(#[trigger] strs(r@[j]@)) by {
            if j < k {
                assert(r@[j] == rv[j]);
            }
        }
        let ghost before = lists_view(acc@);
        acc.push(copy_strings(&unit_opaques[k]));
        assert(lists_view(acc@) =~= before.push(ov[k as int]));
        assert(ov.take(k + 1) =~= ov.take(k as int).push(ov[k as int]));
        k = k + 1;
    }
    r
}

} // verus!
