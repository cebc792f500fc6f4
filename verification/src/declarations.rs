//! Normalization of single declarations: parameters, default-argument variants,
//! constructors, methods, free functions and struct field accessors.
use vstd::prelude::*;

use crate::case::{accessor_suffix, struct_field_accessor_suffix};
use crate::config::Config;
use crate::ir::{
    opt_view, params_view, records_view, strs, IrFieldAccessor, IrFieldAccessorV, IrFunction,
    IrFunctionV, IrParam, IrParamV, IrRecord, IrRecordV, IrType, IrTypeV, SkippedDeclaration,
};
use crate::kind::{FieldAccessKind, IrFunctionKind, IrTypeKind};
use crate::naming::{cpp_qualified, qualified, symbol_name, symbol_parts};
use crate::normalize::{
    bv_reason, double_pointer_reason, dp_reason, fp_reason, function_pointer_reason,
    normalize_return_type_with_canonical, normalize_type_with_canonical,
    raw_unsafe_by_value_reason, type_result,
};
use crate::parsed::{cparams, CppField, CppFieldV, CppMethod, CppMethodV, CppParam, CppParamV};
use crate::text::{
    chars_of, eq_lit, join, push_str, push_string, seq_eq, starts_with, starts_with_lit,
    string_of, trim, trim_vec, views,
};
use crate::types::{
    base_model, base_model_vec, norm_with_canonical, parse_array, parse_array_vec, prim_tv,
    primitive_type, tv,
};

verus! {

// ---------------------------------------------------------------------------
// Parameters
// ---------------------------------------------------------------------------

pub open spec fn is_go_keyword(n: Seq<char>) -> bool {
    n == "break"@ || n == "case"@ || n == "chan"@ || n == "const"@ || n == "continue"@ || n
        == "default"@ || n == "defer"@ || n == "else"@ || n == "fallthrough"@ || n == "for"@ || n
        == "func"@ || n == "go"@ || n == "goto"@ || n == "if"@ || n == "import"@ || n
        == "interface"@ || n == "map"@ || n == "package"@ || n == "range"@ || n == "return"@ || n
        == "select"@ || n == "struct"@ || n == "switch"@ || n == "type"@ || n == "var"@
}

/// A parameter name usable in Go: keywords get a trailing `_`.
pub open spec fn go_param_name(n: Seq<char>) -> Seq<char> {
    if is_go_keyword(n) {
        n + "_"@
    } else {
        n
    }
}

pub fn sanitize_go_param_name(name: &str) -> (r: String)
    ensures
        r@ == go_param_name(name@),
{
    let v = chars_of(name);
    let n = v.as_slice();
    if eq_lit(n, "break") || eq_lit(n, "case") || eq_lit(n, "chan") || eq_lit(n, "const")
        || eq_lit(n, "continue") || eq_lit(n, "default") || eq_lit(n, "defer") || eq_lit(n, "else")
        || eq_lit(n, "fallthrough") || eq_lit(n, "for") || eq_lit(n, "func") || eq_lit(n, "go")
        || eq_lit(n, "goto") || eq_lit(n, "if") || eq_lit(n, "import") || eq_lit(n, "interface")
        || eq_lit(n, "map") || eq_lit(n, "package") || eq_lit(n, "range") || eq_lit(n, "return")
        || eq_lit(n, "select") || eq_lit(n, "struct") || eq_lit(n, "switch") || eq_lit(n, "type")
        || eq_lit(n, "var") {
        let mut out = String::from_str(name);
        push_str(&mut out, "_");
        out
    } else {
        String::from_str(name)
    }
}

/// The classification context: callback names, known enums, known records.
pub struct TypeEnv {
    pub cbs: Seq<Seq<char>>,
    pub enums: Seq<Seq<char>>,
    pub recs: Seq<IrRecordV>,
}

pub open spec fn env_of(
    callback_names: &Vec<String>,
    known_enum_types: &Vec<String>,
    known_records: &[IrRecord],
) -> TypeEnv {
    TypeEnv {
        cbs: strs(callback_names@),
        enums: strs(known_enum_types@),
        recs: records_view(known_records@),
    }
}

pub open spec fn ntype(d: Seq<char>, c: Seq<char>, env: TypeEnv) -> Result<IrTypeV, Seq<char>> {
    norm_with_canonical(d, c, env.cbs, env.enums, env.recs)
}

pub open spec fn nparam(p: CppParamV, env: TypeEnv) -> Result<IrParamV, Seq<char>> {
    match ntype(p.ty, p.canonical_ty, env) {
        Ok(t) => Ok(IrParamV { name: go_param_name(p.name), ty: t }),
        Err(e) => Err(e),
    }
}

/// All parameters normalized, or the first failure.
pub open spec fn nparams(ps: Seq<CppParamV>, env: TypeEnv) -> Result<Seq<IrParamV>, Seq<char>>
    decreases ps.len(),
{
    if ps.len() == 0 {
        Ok(seq![])
    } else {
        match nparams(ps.drop_last(), env) {
            Err(e) => Err(e),
            Ok(v) => match nparam(ps.last(), env) {
                Ok(p) => Ok(v.push(p)),
                Err(e) => Err(e),
            },
        }
    }
}

pub fn normalize_param(
    config: &Config,
    param: &CppParam,
    callback_names: &Vec<String>,
    known_enum_types: &Vec<String>,
    known_records: &[IrRecord],
) -> (r: Result<IrParam, String>)
    ensures
        match nparam(param@, env_of(callback_names, known_enum_types, known_records)) {
            Ok(p) => r is Ok && r->Ok_0@ == p,
            Err(e) => r is Err && r->Err_0@ == e,
        },
{
    let ty = normalize_type_with_canonical(
        config,
        param.ty.as_str(),
        param.canonical_ty.as_str(),
        callback_names,
        known_enum_types,
        known_records,
    );
    match ty {
        Ok(t) => Ok(IrParam { name: sanitize_go_param_name(param.name.as_str()), ty: t }),
        Err(e) => Err(e),
    }
}

/// Normalizes `params[..len]`, appending to `out`.
pub fn normalize_params_into(
    config: &Config,
    params: &[CppParam],
    len: usize,
    out: &mut Vec<IrParam>,
    callback_names: &Vec<String>,
    known_enum_types: &Vec<String>,
    known_records: &[IrRecord],
) -> (r: Result<(), String>)
    requires
        len <= params.len(),
    ensures
        match nparams(
            cparams(params@).take(len as int),
            env_of(callback_names, known_enum_types, known_records),
        ) {
            Ok(v) => r is Ok && params_view(final(out)@) == params_view(old(out)@) + v,
            Err(e) => r is Err && r->Err_0@ == e,
        },
{
    let ghost env = env_of(callback_names, known_enum_types, known_records);
    let ghost ps = cparams(params@).take(len as int);
    let ghost start = params_view(out@);
    let mut i: usize = 0;
    assert(ps.take(0) =~= Seq::<CppParamV>::empty());
    assert(start + seq![] =~= start);
    while i < len
        invariant
            i <= len <= params.len(),
            ps == cparams(params@).take(len as int),
            env == env_of(callback_names, known_enum_types, known_records),
            nparams(ps.take(i as int), env) is Ok,
            params_view(out@) == start + nparams(ps.take(i as int), env)->Ok_0,
        decreases len - i,
    {
        assert(ps.take(i + 1).drop_last() =~= ps.take(i as int));
        assert(ps.take(i + 1).last() == params@[i as int]@);
        match normalize_param(config, &params[i], callback_names, known_enum_types, known_records) {
            Ok(p) => {
                let ghost before = params_view(out@);
                out.push(p);
                assert(params_view(out@) =~= before.push(p@));
            },
            Err(e) => {
                proof {
                    lemma_nparams_err_extends(ps, i as int + 1, env);
                }
                return Err(e);
            },
        }
        i = i + 1;
    }
    assert(ps.take(i as int) =~= ps);
    Ok(())
}

/// A failure on a prefix is the failure of the whole list.
pub proof fn lemma_nparams_err_extends(ps: Seq<CppParamV>, k: int, env: TypeEnv)
    requires
        0 <= k <= ps.len(),
        nparams(ps.take(k), env) is Err,
    ensures
        nparams(ps, env) == nparams(ps.take(k), env),
    decreases ps.len() - k,
{
    if k < ps.len() {
        assert(ps.take(k + 1).drop_last() =~= ps.take(k));
        lemma_nparams_err_extends(ps, k + 1, env);
    } else {
        assert(ps.take(k) =~= ps);
    }
}

// ---------------------------------------------------------------------------
// Default-argument variants
// ---------------------------------------------------------------------------

/// The signature of a parameter list: its canonical types.
pub open spec fn sig(ps: Seq<CppParamV>) -> Seq<Seq<char>> {
    ps.map_values(|p: CppParamV| p.canonical_ty)
}

/// The shorter lengths reachable by dropping trailing defaulted parameters.
pub open spec fn trailing_default_lens(ps: Seq<CppParamV>, len: int) -> Seq<int>
    decreases len,
{
    if 0 < len <= ps.len() && ps[len - 1].has_default {
        seq![len - 1] + trailing_default_lens(ps, len - 1)
    } else {
        seq![]
    }
}

pub open spec fn variant_lens(ps: Seq<CppParamV>) -> Seq<int> {
    seq![ps.len() as int] + trailing_default_lens(ps, ps.len() as int)
}

/// A signature emitted under a group key.
pub type EmittedKey = (Seq<char>, bool);

/// The lengths kept among `lens`, and the emitted signatures after them: a shorter variant
/// whose signature another overload declares is dropped, and each signature is emitted once
/// per key.
pub open spec fn variants_from(
    ps: Seq<CppParamV>,
    existing: Seq<Seq<Seq<char>>>,
    key: EmittedKey,
    em: Seq<(EmittedKey, Seq<Seq<char>>)>,
    lens: Seq<int>,
) -> (Seq<int>, Seq<(EmittedKey, Seq<Seq<char>>)>)
    decreases lens.len(),
{
    if lens.len() == 0 {
        (seq![], em)
    } else {
        let (o, e) = variants_from(ps, existing, key, em, lens.drop_last());
        let len = lens.last();
        let s = sig(ps.take(len));
        if len < ps.len() && existing.contains(s) {
            (o, e)
        } else if e.contains((key, s)) {
            (o, e)
        } else {
            (o.push(len), e.push((key, s)))
        }
    }
}

/// One emitted signature under its key.
#[derive(Debug, Clone)]
pub struct EmittedSig {
    pub name: String,
    pub flag: bool,
    pub sig: Vec<String>,
}

pub open spec fn emitted_view(v: Seq<EmittedSig>) -> Seq<(EmittedKey, Seq<Seq<char>>)> {
    v.map_values(|e: EmittedSig| ((e.name@, e.flag), strs(e.sig@)))
}

pub open spec fn sigs_view(v: Seq<Vec<String>>) -> Seq<Seq<Seq<char>>> {
    v.map_values(|s: Vec<String>| strs(s@))
}

pub fn strings_eq(a: &Vec<String>, b: &Vec<String>) -> (r: bool)
    ensures
        r == (strs(a@) == strs(b@)),
{
    if a.len() != b.len() {
        return false;
    }
    let mut i: usize = 0;
    while i < a.len()
        invariant
            i <= a.len() == b.len(),
            forall|k: int| 0 <= k < i ==> a@[k]@ == b@[k]@,
        decreases a.len() - i,
    {
        if !crate::text::str_eq(a[i].as_str(), b[i].as_str()) {
            assert(strs(a@)[i as int] != strs(b@)[i as int]);
            return false;
        }
        i = i + 1;
    }
    assert(strs(a@) =~= strs(b@));
    true
}

pub fn contains_sig(set: &Vec<Vec<String>>, s: &Vec<String>) -> (r: bool)
    ensures
        r == sigs_view(set@).contains(strs(s@)),
{
    let mut i: usize = 0;
    while i < set.len()
        invariant
            i <= set.len(),
            forall|k: int| 0 <= k < i ==> strs(set@[k]@) != strs(s@),
        decreases set.len() - i,
    {
        if strings_eq(&set[i], s) {
            assert(sigs_view(set@)[i as int] == strs(s@));
            return true;
        }
        i = i + 1;
    }
    assert forall|k: int| 0 <= k < sigs_view(set@).len() implies sigs_view(set@)[k] != strs(s@) by {
        assert(sigs_view(set@)[k] == strs(set@[k]@));
    }
    false
}

fn contains_emitted(em: &Vec<EmittedSig>, name: &str, flag: bool, s: &Vec<String>) -> (r: bool)
    ensures
        r == emitted_view(em@).contains(((name@, flag), strs(s@))),
{
    let n = chars_of(name);
    let mut i: usize = 0;
    while i < em.len()
        invariant
            i <= em.len(),
            n@ == name@,
            forall|k: int| 0 <= k < i ==> emitted_view(em@)[k] != ((name@, flag), strs(s@)),
        decreases em.len() - i,
    {
        let en = chars_of(em[i].name.as_str());
        if seq_eq(en.as_slice(), n.as_slice()) && em[i].flag == flag && strings_eq(&em[i].sig, s) {
            assert(emitted_view(em@)[i as int] == ((name@, flag), strs(s@)));
            return true;
        }
        i = i + 1;
    }
    false
}

/// The signature of `params[..len]`.
pub fn param_signature(params: &[CppParam], len: usize) -> (r: Vec<String>)
    requires
        len <= params.len(),
    ensures
        strs(r@) == sig(cparams(params@).take(len as int)),
{
    let mut r: Vec<String> = Vec::new();
    let mut i: usize = 0;
    while i < len
        invariant
            i <= len <= params.len(),
            strs(r@) =~= sig(cparams(params@).take(i as int)),
        decreases len - i,
    {
        let c = params[i].canonical_ty.clone();
        let ghost before = r@;
        r.push(c);
        assert(strs(r@) =~= strs(before).push(c@));
        assert(sig(cparams(params@).take(i + 1)) =~= sig(cparams(params@).take(i as int)).push(
            params@[i as int]@.canonical_ty,
        ));
        i = i + 1;
    }
    r
}

fn variant_lengths(params: &[CppParam]) -> (r: Vec<usize>)
    ensures
        r@.map_values(|l: usize| l as int) == variant_lens(cparams(params@)),
        forall|k: int| 0 <= k < r@.len() ==> r@[k] <= params.len(),
{
    let ghost ps = cparams(params@);
    let mut lens: Vec<usize> = Vec::new();
    lens.push(params.len());
    let mut len: usize = params.len();
    assert(lens@.map_values(|l: usize| l as int) + trailing_default_lens(ps, len as int)
        =~= variant_lens(ps));
    while len > 0 && params[len - 1].has_default
        invariant
            len <= params.len(),
            ps == cparams(params@),
            lens@.map_values(|l: usize| l as int) + trailing_default_lens(ps, len as int)
                == variant_lens(ps),
            forall|k: int| 0 <= k < lens@.len() ==> lens@[k] <= params.len(),
        decreases len,
    {
        assert(ps[len - 1] == params@[len - 1]@);
        len = len - 1;
        let ghost before = lens@;
        lens.push(len);
        assert(lens@.map_values(|l: usize| l as int) =~= before.map_values(|l: usize| l as int).push(
            len as int,
        ));
        assert(lens@.map_values(|l: usize| l as int) + trailing_default_lens(ps, len as int)
            =~= before.map_values(|l: usize| l as int) + trailing_default_lens(ps, len + 1));
    }
    assert(trailing_default_lens(ps, len as int) =~= Seq::<int>::empty());
    assert(lens@.map_values(|l: usize| l as int) + Seq::<int>::empty() =~= lens@.map_values(
        |l: usize| l as int,
    ));
    lens
}

/// The parameter-list lengths to wrap for one declaration: all parameters, then each
/// shorter list reached by dropping defaulted trailing parameters, skipping those whose
/// signature another overload declares and those already emitted under `name`/`flag`.
pub fn default_argument_param_variants(
    params: &[CppParam],
    existing_signatures: &Vec<Vec<String>>,
    name: &str,
    flag: bool,
    emitted_signatures: &mut Vec<EmittedSig>,
) -> (r: Vec<usize>)
    ensures
        ({
            let (o, e) = variants_from(
                cparams(params@),
                sigs_view(existing_signatures@),
                (name@, flag),
                emitted_view(old(emitted_signatures)@),
                variant_lens(cparams(params@)),
            );
            r@.map_values(|l: usize| l as int) == o && emitted_view(final(emitted_signatures)@) == e
        }),
        forall|k: int| 0 <= k < r@.len() ==> r@[k] <= params.len(),
{
    let ghost ps = cparams(params@);
    let ghost ex = sigs_view(existing_signatures@);
    let ghost em0 = emitted_view(emitted_signatures@);
    let lens = variant_lengths(params);
    let ghost ls = lens@.map_values(|l: usize| l as int);
    let mut out: Vec<usize> = Vec::new();
    let mut i: usize = 0;
    assert(ls.take(0) =~= Seq::<int>::empty());
    assert(out@.map_values(|l: usize| l as int) =~= Seq::<int>::empty());
    while i < lens.len()
        invariant
            i <= lens.len(),
            ps == cparams(params@),
            ex == sigs_view(existing_signatures@),
            ls == lens@.map_values(|l: usize| l as int),
            ls == variant_lens(ps),
            forall|k: int| 0 <= k < lens@.len() ==> lens@[k] <= params.len(),
            forall|k: int| 0 <= k < out@.len() ==> out@[k] <= params.len(),
            out@.map_values(|l: usize| l as int) == variants_from(
                ps,
                ex,
                (name@, flag),
                em0,
                ls.take(i as int),
            ).0,
            emitted_view(emitted_signatures@) == variants_from(
                ps,
                ex,
                (name@, flag),
                em0,
                ls.take(i as int),
            ).1,
        decreases lens.len() - i,
    {
        let len = lens[i];
        assert(ls.take(i + 1).drop_last() =~= ls.take(i as int));
        assert(ls.take(i + 1).last() == len as int);
        let s = param_signature(params, len);
        if len < params.len() && contains_sig(existing_signatures, &s) {
        } else if contains_emitted(emitted_signatures, name, flag, &s) {
        } else {
            let ghost eb = emitted_signatures@;
            let ghost ob = out@;
            emitted_signatures.push(EmittedSig { name: String::from_str(name), flag, sig: s });
            out.push(len);
            assert(emitted_view(emitted_signatures@) =~= emitted_view(eb).push(
                ((name@, flag), strs(s@)),
            ));
            assert(out@.map_values(|l: usize| l as int) =~= ob.map_values(|l: usize| l as int).push(
                len as int,
            ));
        }
        i = i + 1;
    }
    assert(ls.take(i as int) =~= ls);
    out
}


// ---------------------------------------------------------------------------
// Constructors, methods and free functions
// ---------------------------------------------------------------------------

pub open spec fn skipped_view(v: Seq<SkippedDeclaration>) -> Seq<(Seq<char>, Seq<char>)> {
    v.map_values(|d: SkippedDeclaration| (d.cpp_name@, d.reason@))
}

/// What normalizing one declaration gives: a reason to skip it, a function, or an error.
pub enum Outcome {
    Skip(Seq<char>),
    Emit(IrFunctionV),
    Fail(Seq<char>),
}

/// `r` and the skip list report `o` for the declaration named `cpp_name`.
pub open spec fn outcome_matches(
    o: Outcome,
    cpp_name: Seq<char>,
    r: Result<Option<IrFunction>, String>,
    before: Seq<SkippedDeclaration>,
    after: Seq<SkippedDeclaration>,
) -> bool {
    match o {
        Outcome::Skip(reason) => r matches Ok(None) && skipped_view(after) == skipped_view(
            before,
        ).push((cpp_name, reason)),
        Outcome::Emit(f) => r matches Ok(Some(x)) && x@ == f && skipped_view(after)
            == skipped_view(before),
        Outcome::Fail(e) => r matches Err(x) && x@ == e,
    }
}

pub open spec fn sym(ns: Seq<Seq<char>>, owner: Seq<char>, tail: Seq<char>) -> Seq<char> {
    join(symbol_parts(ns, owner, tail), "_"@)
}

pub open spec fn star(s: Seq<char>) -> Seq<char> {
    s + "*"@
}

pub open spec fn const_star(s: Seq<char>) -> Seq<char> {
    "const "@ + s + "*"@
}

/// The receiver parameter of a method of `q` with handle `h`.
pub open spec fn self_param(q: Seq<char>, h: Seq<char>, is_const: bool) -> IrParamV {
    IrParamV {
        name: "self"@,
        ty: if is_const {
            tv(IrTypeKind::Opaque, const_star(q), const_star(h), Some(h))
        } else {
            tv(IrTypeKind::Opaque, star(q), star(h), Some(h))
        },
    }
}

pub open spec fn ctor_fn(
    ns: Seq<Seq<char>>,
    name: Seq<char>,
    h: Seq<char>,
    params: Seq<IrParamV>,
) -> IrFunctionV {
    let q = qualified(ns, name);
    IrFunctionV {
        name: sym(ns, name, "new"@),
        kind: IrFunctionKind::Constructor,
        cpp_name: q,
        method_of: Some(h),
        owner_cpp_type: Some(q),
        is_const: None,
        field_accessor: None,
        returns: tv(IrTypeKind::Opaque, q, star(h), Some(h)),
        params,
    }
}

#[verifier::opaque]
pub open spec fn norm_ctor(
    ns: Seq<Seq<char>>,
    name: Seq<char>,
    h: Seq<char>,
    ps: Seq<CppParamV>,
    env: TypeEnv,
) -> Outcome {
    match fp_reason(None, ps, env.cbs) {
        Some(r) => Outcome::Skip(r),
        None => match dp_reason(None, ps) {
            Some(r) => Outcome::Skip(r),
            None => match nparams(ps, env) {
                Ok(v) => Outcome::Emit(ctor_fn(ns, name, h, v)),
                Err(e) => Outcome::Fail(e),
            },
        },
    }
}

fn string_with(a: &str, b: &str) -> (r: String)
    ensures
        r@ == a@ + b@,
{
    let mut out = String::from_str(a);
    push_str(&mut out, b);
    out
}

fn opaque_type(cpp: String, handle: &str, is_const: bool) -> (r: IrType)
    ensures
        r@ == (if is_const {
            tv(IrTypeKind::Opaque, cpp@, const_star(handle@), Some(handle@))
        } else {
            tv(IrTypeKind::Opaque, cpp@, star(handle@), Some(handle@))
        }),
{
    let c = if is_const {
        let mut c = String::from_str("const ");
        push_str(&mut c, handle);
        push_str(&mut c, "*");
        c
    } else {
        string_with(handle, "*")
    };
    IrType { kind: IrTypeKind::Opaque, cpp_type: cpp, c_type: c, handle: Some(String::from_str(handle)) }
}

fn make_self_param(q: &str, handle: &str, is_const: bool) -> (r: IrParam)
    ensures
        r@ == self_param(q@, handle@, is_const),
{
    let cpp = if is_const {
        let mut c = String::from_str("const ");
        push_str(&mut c, q);
        push_str(&mut c, "*");
        c
    } else {
        string_with(q, "*")
    };
    IrParam { name: String::from_str("self"), ty: opaque_type(cpp, handle, is_const) }
}

fn skip(skipped: &mut Vec<SkippedDeclaration>, cpp_name: String, reason: String)
    ensures
        skipped_view(final(skipped)@) == skipped_view(old(skipped)@).push((cpp_name@, reason@)),
{
    let ghost before = skipped@;
    let d = SkippedDeclaration { cpp_name, reason };
    skipped.push(d);
    assert(skipped_view(skipped@) =~= skipped_view(before).push((d.cpp_name@, d.reason@)));
}

pub proof fn lemma_cparams_prefix(params: Seq<CppParam>, len: int)
    requires
        0 <= len <= params.len(),
    ensures
        cparams(params.subrange(0, len)) == cparams(params).take(len),
{
    assert(cparams(params.subrange(0, len)) =~= cparams(params).take(len));
}

pub fn normalize_constructor(
    config: &Config,
    namespace: &Vec<String>,
    record_name: &str,
    handle_name: &str,
    cpp_params: &[CppParam],
    callback_names: &Vec<String>,
    known_enum_types: &Vec<String>,
    known_records: &[IrRecord],
    skipped_declarations: &mut Vec<SkippedDeclaration>,
) -> (r: Result<Option<IrFunction>, String>)
    ensures
        outcome_matches(
            norm_ctor(
                strs(namespace@),
                record_name@,
                handle_name@,
                cparams(cpp_params@),
                env_of(callback_names, known_enum_types, known_records),
            ),
            qualified(strs(namespace@), record_name@),
            r,
            old(skipped_declarations)@,
            final(skipped_declarations)@,
        ),
{
    reveal(norm_ctor);
    let q = cpp_qualified(namespace.as_slice(), record_name);
    match function_pointer_reason(None, cpp_params, callback_names) {
        Some(reason) => {
            skip(skipped_declarations, q, reason);
            return Ok(None);
        },
        None => {},
    }
    match double_pointer_reason(None, cpp_params) {
        Some(reason) => {
            skip(skipped_declarations, q, reason);
            return Ok(None);
        },
        None => {},
    }
    let mut params: Vec<IrParam> = Vec::new();
    assert(cparams(cpp_params@).take(cpp_params.len() as int) =~= cparams(cpp_params@));
    match normalize_params_into(
        config,
        cpp_params,
        cpp_params.len(),
        &mut params,
        callback_names,
        known_enum_types,
        known_records,
    ) {
        Ok(()) => {},
        Err(e) => return Err(e),
    }
    assert(params_view(params@) =~= Seq::<IrParamV>::empty() + params_view(params@));
    Ok(
        Some(
            IrFunction {
                name: symbol_name(config, namespace.as_slice(), record_name, "new"),
                kind: IrFunctionKind::Constructor,
                cpp_name: q.clone(),
                method_of: Some(String::from_str(handle_name)),
                owner_cpp_type: Some(q.clone()),
                is_const: None,
                field_accessor: None,
                returns: opaque_type(q, handle_name, false),
                params,
            },
        ),
    )
}

pub open spec fn is_operator(name: Seq<char>) -> bool {
    starts_with(trim(name), "operator"@)
}

pub open spec fn method_fn(
    ns: Seq<Seq<char>>,
    rname: Seq<char>,
    h: Seq<char>,
    m: CppMethodV,
    ret: IrTypeV,
    params: Seq<IrParamV>,
) -> IrFunctionV {
    let q = qualified(ns, rname);
    IrFunctionV {
        name: sym(ns, rname, m.name),
        kind: IrFunctionKind::Method,
        cpp_name: q + "::"@ + m.name,
        method_of: Some(h),
        owner_cpp_type: Some(q),
        is_const: Some(m.is_const),
        field_accessor: None,
        returns: ret,
        params: seq![self_param(q, h, m.is_const)] + params,
    }
}

pub open spec fn operator_reason() -> Seq<char> {
    "operator declarations are unsupported in v1"@
}

/// The skip reason shared by methods and free functions, checked in order.
pub open spec fn callable_skip(
    name: Seq<char>,
    ret: Seq<char>,
    retc: Seq<char>,
    ret_fp: bool,
    ps: Seq<CppParamV>,
    env: TypeEnv,
) -> Option<Seq<char>> {
    if is_operator(name) {
        Some(operator_reason())
    } else {
        match fp_reason(Some((ret, retc, ret_fp)), ps, env.cbs) {
            Some(r) => Some(r),
            None => match dp_reason(Some((ret, retc)), ps) {
                Some(r) => Some(r),
                None => bv_reason(Some((ret, retc)), ps, env.cbs, env.enums, env.recs),
            },
        }
    }
}

#[verifier::opaque]
pub open spec fn norm_method(
    ns: Seq<Seq<char>>,
    rname: Seq<char>,
    h: Seq<char>,
    m: CppMethodV,
    ps: Seq<CppParamV>,
    env: TypeEnv,
) -> Outcome {
    match callable_skip(m.name, m.return_type, m.return_canonical_type, m.return_is_function_pointer, ps, env) {
        Some(r) => Outcome::Skip(r),
        None => match nparams(ps, env) {
            Err(e) => Outcome::Fail(e),
            Ok(v) => match ntype(m.return_type, m.return_canonical_type, env) {
                Err(e) => Outcome::Fail(e),
                Ok(t) => Outcome::Emit(method_fn(ns, rname, h, m, t, v)),
            },
        },
    }
}

fn callable_skip_reason(
    name: &str,
    ret: &str,
    retc: &str,
    ret_fp: bool,
    cpp_params: &[CppParam],
    callback_names: &Vec<String>,
    known_enum_types: &Vec<String>,
    known_records: &[IrRecord],
) -> (r: Option<String>)
    ensures
        opt_view(r) == callable_skip(
            name@,
            ret@,
            retc@,
            ret_fp,
            cparams(cpp_params@),
            env_of(callback_names, known_enum_types, known_records),
        ),
{
    let n = chars_of(name);
    let t = trim_vec(n.as_slice());
    if starts_with_lit(t.as_slice(), "operator") {
        return Some(String::from_str("operator declarations are unsupported in v1"));
    }
    match function_pointer_reason(Some((ret, retc, ret_fp)), cpp_params, callback_names) {
        Some(r) => return Some(r),
        None => {},
    }
    match double_pointer_reason(Some((ret, retc)), cpp_params) {
        Some(r) => return Some(r),
        None => {},
    }
    raw_unsafe_by_value_reason(
        Some((ret, retc)),
        cpp_params,
        callback_names,
        known_enum_types,
        known_records,
    )
}

pub fn normalize_method(
    config: &Config,
    namespace: &Vec<String>,
    record_name: &str,
    handle_name: &str,
    method: &CppMethod,
    cpp_params: &[CppParam],
    abstract_types: &Vec<String>,
    callback_names: &Vec<String>,
    known_enum_types: &Vec<String>,
    known_records: &[IrRecord],
    skipped_declarations: &mut Vec<SkippedDeclaration>,
) -> (r: Result<Option<IrFunction>, String>)
    ensures
        outcome_matches(
            norm_method(
                strs(namespace@),
                record_name@,
                handle_name@,
                method@,
                cparams(cpp_params@),
                env_of(callback_names, known_enum_types, known_records),
            ),
            qualified(strs(namespace@), record_name@) + "::"@ + method@.name,
            r,
            old(skipped_declarations)@,
            final(skipped_declarations)@,
        ),
{
    reveal(norm_method);
    let q = cpp_qualified(namespace.as_slice(), record_name);
    let mut cpp_name = q.clone();
    push_str(&mut cpp_name, "::");
    push_string(&mut cpp_name, &method.name);
    match callable_skip_reason(
        method.name.as_str(),
        method.return_type.as_str(),
        method.return_canonical_type.as_str(),
        method.return_is_function_pointer,
        cpp_params,
        callback_names,
        known_enum_types,
        known_records,
    ) {
        Some(reason) => {
            skip(skipped_declarations, cpp_name, reason);
            return Ok(None);
        },
        None => {},
    }
    let mut params: Vec<IrParam> = Vec::new();
    params.push(make_self_param(q.as_str(), handle_name, method.is_const));
    let ghost head = params_view(params@);
    match normalize_params_into(
        config,
        cpp_params,
        cpp_params.len(),
        &mut params,
        callback_names,
        known_enum_types,
        known_records,
    ) {
        Ok(()) => {},
        Err(e) => {
            assert(cparams(cpp_params@).take(cpp_params.len() as int) =~= cparams(cpp_params@));
            return Err(e);
        },
    }
    assert(cparams(cpp_params@).take(cpp_params.len() as int) =~= cparams(cpp_params@));
    let ret_ty = match normalize_return_type_with_canonical(
        config,
        method.return_type.as_str(),
        method.return_canonical_type.as_str(),
        abstract_types,
        callback_names,
        known_enum_types,
        known_records,
    ) {
        Ok(t) => t,
        Err(e) => return Err(e),
    };
    assert(head =~= seq![self_param(q@, handle_name@, method.is_const)]);
    Ok(
        Some(
            IrFunction {
                name: symbol_name(config, namespace.as_slice(), record_name, method.name.as_str()),
                kind: IrFunctionKind::Method,
                cpp_name,
                method_of: Some(String::from_str(handle_name)),
                owner_cpp_type: Some(q),
                is_const: Some(method.is_const),
                field_accessor: None,
                returns: ret_ty,
                params,
            },
        ),
    )
}

pub open spec fn function_fn(
    ns: Seq<Seq<char>>,
    name: Seq<char>,
    ret: IrTypeV,
    params: Seq<IrParamV>,
) -> IrFunctionV {
    IrFunctionV {
        name: sym(ns, ""@, name),
        kind: IrFunctionKind::Function,
        cpp_name: qualified(ns, name),
        method_of: None,
        owner_cpp_type: None,
        is_const: None,
        field_accessor: None,
        returns: ret,
        params,
    }
}

#[verifier::opaque]
pub open spec fn norm_function(
    ns: Seq<Seq<char>>,
    name: Seq<char>,
    ret: Seq<char>,
    retc: Seq<char>,
    ret_fp: bool,
    ps: Seq<CppParamV>,
    env: TypeEnv,
) -> Outcome {
    match callable_skip(name, ret, retc, ret_fp, ps, env) {
        Some(r) => Outcome::Skip(r),
        None => match ntype(ret, retc, env) {
            Err(e) => Outcome::Fail(e),
            Ok(t) => match nparams(ps, env) {
                Err(e) => Outcome::Fail(e),
                Ok(v) => Outcome::Emit(function_fn(ns, name, t, v)),
            },
        },
    }
}

pub fn normalize_function(
    config: &Config,
    function: &crate::parsed::CppFunction,
    cpp_params: &[CppParam],
    abstract_types: &Vec<String>,
    callback_names: &Vec<String>,
    known_enum_types: &Vec<String>,
    known_records: &[IrRecord],
    skipped_declarations: &mut Vec<SkippedDeclaration>,
) -> (r: Result<Option<IrFunction>, String>)
    ensures
        outcome_matches(
            norm_function(
                function@.namespace,
                function@.name,
                function@.return_type,
                function@.return_canonical_type,
                function@.return_is_function_pointer,
                cparams(cpp_params@),
                env_of(callback_names, known_enum_types, known_records),
            ),
            qualified(function@.namespace, function@.name),
            r,
            old(skipped_declarations)@,
            final(skipped_declarations)@,
        ),
{
    reveal(norm_function);
    let cpp_name = cpp_qualified(function.namespace.as_slice(), function.name.as_str());
    match callable_skip_reason(
        function.name.as_str(),
        function.return_type.as_str(),
        function.return_canonical_type.as_str(),
        function.return_is_function_pointer,
        cpp_params,
        callback_names,
        known_enum_types,
        known_records,
    ) {
        Some(reason) => {
            skip(skipped_declarations, cpp_name, reason);
            return Ok(None);
        },
        None => {},
    }
    let ret_ty = match normalize_return_type_with_canonical(
        config,
        function.return_type.as_str(),
        function.return_canonical_type.as_str(),
        abstract_types,
        callback_names,
        known_enum_types,
        known_records,
    ) {
        Ok(t) => t,
        Err(e) => return Err(e),
    };
    let mut params: Vec<IrParam> = Vec::new();
    let r = normalize_params_into(
        config,
        cpp_params,
        cpp_params.len(),
        &mut params,
        callback_names,
        known_enum_types,
        known_records,
    );
    assert(cparams(cpp_params@).take(cpp_params.len() as int) =~= cparams(cpp_params@));
    match r {
        Ok(()) => {},
        Err(e) => return Err(e),
    }
    assert(params_view(params@) =~= Seq::<IrParamV>::empty() + params_view(params@));
    Ok(
        Some(
            IrFunction {
                name: symbol_name(config, function.namespace.as_slice(), "", function.name.as_str()),
                kind: IrFunctionKind::Function,
                cpp_name,
                method_of: None,
                owner_cpp_type: None,
                is_const: None,
                field_accessor: None,
                returns: ret_ty,
                params,
            },
        ),
    )
}


// ---------------------------------------------------------------------------
// Struct field accessors
// ---------------------------------------------------------------------------

pub open spec fn accessor(name: Seq<char>, access: FieldAccessKind, len: Option<usize>) -> Option<
    IrFieldAccessorV,
> {
    Some(IrFieldAccessorV { field_name: name, access, array_len: len })
}

pub open spec fn getter_returns(ft: IrTypeV) -> IrTypeV {
    if ft.kind == IrTypeKind::ModelValue {
        IrTypeV { kind: IrTypeKind::ModelPointer, cpp_type: star(base_model(ft.cpp_type)), ..ft }
    } else {
        ft
    }
}

pub open spec fn field_getter(
    ns: Seq<Seq<char>>,
    owner: Seq<char>,
    h: Seq<char>,
    field: Seq<char>,
    ft: IrTypeV,
) -> IrFunctionV {
    let q = qualified(ns, owner);
    let m = "Get"@ + accessor_suffix(field);
    let ret = getter_returns(ft);
    IrFunctionV {
        name: sym(ns, owner, m),
        kind: IrFunctionKind::Method,
        cpp_name: q + "::"@ + m,
        method_of: Some(h),
        owner_cpp_type: Some(q),
        is_const: Some(ret.kind != IrTypeKind::ModelPointer),
        field_accessor: accessor(field, FieldAccessKind::Get, None),
        returns: ret,
        params: seq![self_param(q, h, ret.kind != IrTypeKind::ModelPointer)],
    }
}

pub open spec fn field_setter(
    ns: Seq<Seq<char>>,
    owner: Seq<char>,
    h: Seq<char>,
    field: Seq<char>,
    ft: IrTypeV,
) -> IrFunctionV {
    let q = qualified(ns, owner);
    let m = "Set"@ + accessor_suffix(field);
    IrFunctionV {
        name: sym(ns, owner, m),
        kind: IrFunctionKind::Method,
        cpp_name: q + "::"@ + m,
        method_of: Some(h),
        owner_cpp_type: Some(q),
        is_const: Some(false),
        field_accessor: accessor(field, FieldAccessKind::Put, None),
        returns: prim_tv("void"@),
        params: seq![self_param(q, h, false), IrParamV { name: "value"@, ty: ft }],
    }
}

pub open spec fn elem_cpp(ft: IrTypeV) -> Seq<char> {
    match parse_array(ft.cpp_type) {
        Some((e, _)) => e,
        None => "void"@,
    }
}

pub open spec fn elem_handle(ft: IrTypeV) -> Seq<char> {
    match ft.handle {
        Some(h) => h,
        None => Seq::empty(),
    }
}

pub open spec fn elem_len(ft: IrTypeV) -> usize {
    match parse_array(ft.cpp_type) {
        Some((_, n)) => n as usize,
        None => 0,
    }
}

pub open spec fn elem_ptr(ft: IrTypeV) -> IrTypeV {
    tv(IrTypeKind::ModelPointer, star(elem_cpp(ft)), star(elem_handle(ft)), Some(elem_handle(ft)))
}

pub open spec fn index_param() -> IrParamV {
    IrParamV { name: "index"@, ty: prim_tv("int"@) }
}

pub open spec fn field_indexed_getter(
    ns: Seq<Seq<char>>,
    owner: Seq<char>,
    h: Seq<char>,
    field: Seq<char>,
    ft: IrTypeV,
) -> IrFunctionV {
    let q = qualified(ns, owner);
    let m = "Get"@ + accessor_suffix(field) + "At"@;
    IrFunctionV {
        name: sym(ns, owner, m),
        kind: IrFunctionKind::Method,
        cpp_name: q + "::"@ + m,
        method_of: Some(h),
        owner_cpp_type: Some(q),
        is_const: Some(true),
        field_accessor: accessor(field, FieldAccessKind::GetAt, Some(elem_len(ft))),
        returns: elem_ptr(ft),
        params: seq![self_param(q, h, true), index_param()],
    }
}

pub open spec fn field_indexed_setter(
    ns: Seq<Seq<char>>,
    owner: Seq<char>,
    h: Seq<char>,
    field: Seq<char>,
    ft: IrTypeV,
) -> IrFunctionV {
    let q = qualified(ns, owner);
    let m = "Set"@ + accessor_suffix(field) + "At"@;
    IrFunctionV {
        name: sym(ns, owner, m),
        kind: IrFunctionKind::Method,
        cpp_name: q + "::"@ + m,
        method_of: Some(h),
        owner_cpp_type: Some(q),
        is_const: Some(false),
        field_accessor: accessor(field, FieldAccessKind::SetAt, Some(elem_len(ft))),
        returns: prim_tv("void"@),
        params: seq![
            self_param(q, h, false),
            index_param(),
            IrParamV { name: "value"@, ty: elem_ptr(ft) },
        ],
    }
}

fn accessor_name(prefix: &str, field_name: &str) -> (r: String)
    ensures
        r@ == prefix@ + accessor_suffix(field_name@),
{
    let mut m = String::from_str(prefix);
    let sfx = struct_field_accessor_suffix(field_name);
    push_string(&mut m, &sfx);
    m
}

fn indexed_accessor_name(prefix: &str, field_name: &str) -> (r: String)
    ensures
        r@ == prefix@ + accessor_suffix(field_name@) + "At"@,
{
    let mut m = accessor_name(prefix, field_name);
    push_str(&mut m, "At");
    m
}

fn cpp_member(q: &String, m: &String) -> (r: String)
    ensures
        r@ == q@ + "::"@ + m@,
{
    let mut out = q.clone();
    push_str(&mut out, "::");
    push_string(&mut out, m);
    out
}

pub fn make_struct_field_getter(
    config: &Config,
    namespace: &Vec<String>,
    owner_name: &str,
    handle_name: &str,
    field: &CppField,
    ft: IrType,
) -> (r: IrFunction)
    ensures
        r@ == field_getter(strs(namespace@), owner_name@, handle_name@, field@.name, ft@),
{
    let q = cpp_qualified(namespace.as_slice(), owner_name);
    let m = accessor_name("Get", field.name.as_str());
    let ret_ty = if ft.kind == IrTypeKind::ModelValue {
        let c = chars_of(ft.cpp_type.as_str());
        let b = base_model_vec(c.as_slice());
        let mut cpp = string_of(b.as_slice());
        push_str(&mut cpp, "*");
        IrType { kind: IrTypeKind::ModelPointer, cpp_type: cpp, c_type: ft.c_type, handle: ft.handle }
    } else {
        ft
    };
    let is_const = ret_ty.kind != IrTypeKind::ModelPointer;
    let mut params: Vec<IrParam> = Vec::new();
    params.push(make_self_param(q.as_str(), handle_name, is_const));
    assert(params_view(params@) =~= seq![self_param(q@, handle_name@, is_const)]);
    IrFunction {
        name: symbol_name(config, namespace.as_slice(), owner_name, m.as_str()),
        kind: IrFunctionKind::Method,
        cpp_name: cpp_member(&q, &m),
        method_of: Some(String::from_str(handle_name)),
        owner_cpp_type: Some(q),
        is_const: Some(is_const),
        field_accessor: Some(
            IrFieldAccessor {
                field_name: field.name.clone(),
                access: FieldAccessKind::Get,
                array_len: None,
            },
        ),
        returns: ret_ty,
        params,
    }
}

pub fn make_struct_field_setter(
    config: &Config,
    namespace: &Vec<String>,
    owner_name: &str,
    handle_name: &str,
    field: &CppField,
    ft: IrType,
) -> (r: IrFunction)
    ensures
        r@ == field_setter(strs(namespace@), owner_name@, handle_name@, field@.name, ft@),
{
    let q = cpp_qualified(namespace.as_slice(), owner_name);
    let m = accessor_name("Set", field.name.as_str());
    let mut params: Vec<IrParam> = Vec::new();
    params.push(make_self_param(q.as_str(), handle_name, false));
    let v = IrParam { name: String::from_str("value"), ty: ft };
    params.push(v);
    assert(params_view(params@) =~= seq![
        self_param(q@, handle_name@, false),
        IrParamV { name: "value"@, ty: ft@ },
    ]);
    IrFunction {
        name: symbol_name(config, namespace.as_slice(), owner_name, m.as_str()),
        kind: IrFunctionKind::Method,
        cpp_name: cpp_member(&q, &m),
        method_of: Some(String::from_str(handle_name)),
        owner_cpp_type: Some(q),
        is_const: Some(false),
        field_accessor: Some(
            IrFieldAccessor {
                field_name: field.name.clone(),
                access: FieldAccessKind::Put,
                array_len: None,
            },
        ),
        returns: primitive_type("void"),
        params,
    }
}

fn elem_pointer_type(ft: &IrType) -> (r: (IrType, usize))
    ensures
        r.0@ == elem_ptr(ft@),
        r.1 == elem_len(ft@),
{
    let c = chars_of(ft.cpp_type.as_str());
    let (elem, n) = match parse_array_vec(c.as_slice()) {
        Some((e, n)) => (string_of(e.as_slice()), n),
        None => (String::from_str("void"), 0),
    };
    let h = match &ft.handle {
        Some(h) => h.clone(),
        None => String::new(),
    };
    let mut cpp = elem;
    push_str(&mut cpp, "*");
    let mut ct = h.clone();
    push_str(&mut ct, "*");
    (IrType { kind: IrTypeKind::ModelPointer, cpp_type: cpp, c_type: ct, handle: Some(h) }, n)
}

fn index_param_exec() -> (r: IrParam)
    ensures
        r@ == index_param(),
{
    IrParam { name: String::from_str("index"), ty: primitive_type("int") }
}

pub fn make_struct_field_indexed_getter(
    config: &Config,
    namespace: &Vec<String>,
    owner_name: &str,
    handle_name: &str,
    field: &CppField,
    ft: &IrType,
) -> (r: IrFunction)
    ensures
        r@ == field_indexed_getter(strs(namespace@), owner_name@, handle_name@, field@.name, ft@),
{
    let q = cpp_qualified(namespace.as_slice(), owner_name);
    let m = indexed_accessor_name("Get", field.name.as_str());
    let (ret_ty, n) = elem_pointer_type(ft);
    let mut params: Vec<IrParam> = Vec::new();
    params.push(make_self_param(q.as_str(), handle_name, true));
    params.push(index_param_exec());
    assert(params_view(params@) =~= seq![self_param(q@, handle_name@, true), index_param()]);
    IrFunction {
        name: symbol_name(config, namespace.as_slice(), owner_name, m.as_str()),
        kind: IrFunctionKind::Method,
        cpp_name: cpp_member(&q, &m),
        method_of: Some(String::from_str(handle_name)),
        owner_cpp_type: Some(q),
        is_const: Some(true),
        field_accessor: Some(
            IrFieldAccessor {
                field_name: field.name.clone(),
                access: FieldAccessKind::GetAt,
                array_len: Some(n),
            },
        ),
        returns: ret_ty,
        params,
    }
}

pub fn make_struct_field_indexed_setter(
    config: &Config,
    namespace: &Vec<String>,
    owner_name: &str,
    handle_name: &str,
    field: &CppField,
    ft: &IrType,
) -> (r: IrFunction)
    ensures
        r@ == field_indexed_setter(strs(namespace@), owner_name@, handle_name@, field@.name, ft@),
{
    let q = cpp_qualified(namespace.as_slice(), owner_name);
    let m = indexed_accessor_name("Set", field.name.as_str());
    let (value_ty, n) = elem_pointer_type(ft);
    let mut params: Vec<IrParam> = Vec::new();
    params.push(make_self_param(q.as_str(), handle_name, false));
    params.push(index_param_exec());
    let v = IrParam { name: String::from_str("value"), ty: value_ty };
    params.push(v);
    assert(params_view(params@) =~= seq![
        self_param(q@, handle_name@, false),
        index_param(),
        IrParamV { name: "value"@, ty: elem_ptr(ft@) },
    ]);
    IrFunction {
        name: symbol_name(config, namespace.as_slice(), owner_name, m.as_str()),
        kind: IrFunctionKind::Method,
        cpp_name: cpp_member(&q, &m),
        method_of: Some(String::from_str(handle_name)),
        owner_cpp_type: Some(q),
        is_const: Some(false),
        field_accessor: Some(
            IrFieldAccessor {
                field_name: field.name.clone(),
                access: FieldAccessKind::SetAt,
                array_len: Some(n),
            },
        ),
        returns: primitive_type("void"),
        params,
    }
}

pub open spec fn read_only(f: CppFieldV) -> bool {
    starts_with(trim(f.ty), "const "@) || starts_with(trim(f.canonical_ty), "const "@)
}

pub fn field_is_read_only(field: &CppField) -> (b: bool)
    ensures
        b == read_only(field@),
{
    let t = chars_of(field.ty.as_str());
    let c = chars_of(field.canonical_ty.as_str());
    let tt = trim_vec(t.as_slice());
    let ct = trim_vec(c.as_slice());
    starts_with_lit(tt.as_slice(), "const ") || starts_with_lit(ct.as_slice(), "const ")
}

pub open spec fn field_kind_supported(k: IrTypeKind) -> bool {
    k == IrTypeKind::Primitive || k == IrTypeKind::Enum || k == IrTypeKind::ModelValue || k
        == IrTypeKind::CString || k == IrTypeKind::FixedByteArray || k == IrTypeKind::FixedArray
        || k == IrTypeKind::FixedModelArray
}

/// The accessors generated for one field, given the names of the declared methods.
pub open spec fn field_fns(
    ns: Seq<Seq<char>>,
    owner: Seq<char>,
    h: Seq<char>,
    methods: Seq<Seq<char>>,
    f: CppFieldV,
    env: TypeEnv,
) -> Seq<IrFunctionV> {
    let sfx = accessor_suffix(f.name);
    if f.is_function_pointer || methods.contains("Get"@ + sfx) {
        seq![]
    } else {
        match ntype(f.ty, f.canonical_ty, env) {
            Err(_) => seq![],
            Ok(ft) => if !field_kind_supported(ft.kind) {
                seq![]
            } else {
                let fma = ft.kind == IrTypeKind::FixedModelArray;
                let gets = seq![field_getter(ns, owner, h, f.name, ft)] + (if fma {
                    seq![field_indexed_getter(ns, owner, h, f.name, ft)]
                } else {
                    seq![]
                });
                if methods.contains("Set"@ + sfx) || read_only(f) {
                    gets
                } else {
                    gets + seq![field_setter(ns, owner, h, f.name, ft)] + (if fma {
                        seq![field_indexed_setter(ns, owner, h, f.name, ft)]
                    } else {
                        seq![]
                    })
                }
            },
        }
    }
}

/// The accessors of all fields, in order.
pub open spec fn fields_fns(
    ns: Seq<Seq<char>>,
    owner: Seq<char>,
    h: Seq<char>,
    methods: Seq<Seq<char>>,
    fs: Seq<CppFieldV>,
    env: TypeEnv,
) -> Seq<IrFunctionV>
    decreases fs.len(),
{
    if fs.len() == 0 {
        seq![]
    } else {
        fields_fns(ns, owner, h, methods, fs.drop_last(), env) + field_fns(
            ns,
            owner,
            h,
            methods,
            fs.last(),
            env,
        )
    }
}

fn method_names(methods: &Vec<CppMethod>) -> (r: Vec<String>)
    ensures
        strs(r@) == methods@.map_values(|m: CppMethod| m.name@),
{
    let mut r: Vec<String> = Vec::new();
    let mut i: usize = 0;
    while i < methods.len()
        invariant
            i <= methods.len(),
            strs(r@) =~= methods@.take(i as int).map_values(|m: CppMethod| m.name@),
        decreases methods.len() - i,
    {
        let n = methods[i].name.clone();
        let ghost before = r@;
        r.push(n);
        assert(strs(r@) =~= strs(before).push(n@));
        assert(methods@.take(i + 1) =~= methods@.take(i as int).push(methods@[i as int]));
        i = i + 1;
    }
    assert(methods@.take(i as int) =~= methods@);
    r
}

fn push_fn(out: &mut Vec<IrFunction>, f: IrFunction)
    ensures
        crate::ir::functions_view(final(out)@) == crate::ir::functions_view(old(out)@).push(f@),
{
    let ghost before = out@;
    out.push(f);
    assert(crate::ir::functions_view(out@) =~= crate::ir::functions_view(before).push(f@));
}

fn push_field_fns(
    config: &Config,
    record: &crate::parsed::CppRecord,
    names: &Vec<String>,
    field: &CppField,
    handle_name: &str,
    callback_names: &Vec<String>,
    known_enum_types: &Vec<String>,
    known_records: &[IrRecord],
    out: &mut Vec<IrFunction>,
)
    ensures
        crate::ir::functions_view(final(out)@) == crate::ir::functions_view(old(out)@) + field_fns(
            record@.namespace,
            record@.name,
            handle_name@,
            strs(names@),
            field@,
            env_of(callback_names, known_enum_types, known_records),
        ),
{
    let ghost ms = strs(names@);
    let ghost ns = record@.namespace;
    let ghost before = crate::ir::functions_view(out@);
    let ghost want = field_fns(
        ns,
        record@.name,
        handle_name@,
        ms,
        field@,
        env_of(callback_names, known_enum_types, known_records),
    );
    if field.is_function_pointer {
        assert(before + want =~= before);
        return;
    }
    let getter_name = accessor_name("Get", field.name.as_str());
    let gv = chars_of(getter_name.as_str());
    if crate::ir::contains_str(names, gv.as_slice()) {
        assert(before + want =~= before);
        return;
    }
    let ft = match normalize_type_with_canonical(
        config,
        field.ty.as_str(),
        field.canonical_ty.as_str(),
        callback_names,
        known_enum_types,
        known_records,
    ) {
        Ok(t) => t,
        Err(_) => {
            assert(before + want =~= before);
            return;
        },
    };
    let k = ft.kind;
    if !(k == IrTypeKind::Primitive || k == IrTypeKind::Enum || k == IrTypeKind::ModelValue || k
        == IrTypeKind::CString || k == IrTypeKind::FixedByteArray || k == IrTypeKind::FixedArray
        || k == IrTypeKind::FixedModelArray) {
        assert(before + want =~= before);
        return;
    }
    let fma = k == IrTypeKind::FixedModelArray;
    let ghost ftv = ft@;
    let ft2 = ft.copy();
    let ft3 = ft.copy();
    push_fn(
        out,
        make_struct_field_getter(config, &record.namespace, record.name.as_str(), handle_name, field, ft),
    );
    if fma {
        push_fn(
            out,
            make_struct_field_indexed_getter(
                config,
                &record.namespace,
                record.name.as_str(),
                handle_name,
                field,
                &ft2,
            ),
        );
    }
    let ghost gets = seq![field_getter(ns, record@.name, handle_name@, field@.name, ftv)] + (if fma {
        seq![field_indexed_getter(ns, record@.name, handle_name@, field@.name, ftv)]
    } else {
        seq![]
    });
    assert(crate::ir::functions_view(out@) =~= before + gets);
    let setter_name = accessor_name("Set", field.name.as_str());
    let sv = chars_of(setter_name.as_str());
    if crate::ir::contains_str(names, sv.as_slice()) || field_is_read_only(field) {
        return;
    }
    push_fn(
        out,
        make_struct_field_setter(config, &record.namespace, record.name.as_str(), handle_name, field, ft3),
    );
    if fma {
        push_fn(
            out,
            make_struct_field_indexed_setter(
                config,
                &record.namespace,
                record.name.as_str(),
                handle_name,
                field,
                &ft2,
            ),
        );
    }
    assert(crate::ir::functions_view(out@) =~= before + want);
}

pub fn normalize_struct_fields(
    config: &Config,
    record: &crate::parsed::CppRecord,
    handle_name: &str,
    callback_names: &Vec<String>,
    known_enum_types: &Vec<String>,
    known_records: &[IrRecord],
) -> (r: Vec<IrFunction>)
    ensures
        crate::ir::functions_view(r@) == fields_fns(
            record@.namespace,
            record@.name,
            handle_name@,
            record@.methods.map_values(|m: CppMethodV| m.name),
            record@.fields,
            env_of(callback_names, known_enum_types, known_records),
        ),
{
    let names = method_names(&record.methods);
    let ghost ms = strs(names@);
    let ghost env = env_of(callback_names, known_enum_types, known_records);
    let ghost fs = record@.fields;
    assert(ms =~= record@.methods.map_values(|m: CppMethodV| m.name));
    let mut out: Vec<IrFunction> = Vec::new();
    let mut i: usize = 0;
    assert(crate::ir::functions_view(out@) =~= Seq::<IrFunctionV>::empty());
    while i < record.fields.len()
        invariant
            i <= record.fields.len(),
            ms == strs(names@),
            fs == record@.fields,
            env == env_of(callback_names, known_enum_types, known_records),
            crate::ir::functions_view(out@) == fields_fns(
                record@.namespace,
                record@.name,
                handle_name@,
                ms,
                fs.take(i as int),
                env,
            ),
        decreases record.fields.len() - i,
    {
        assert(fs.take(i + 1).drop_last() =~= fs.take(i as int));
        assert(fs.take(i + 1).last() == record.fields@[i as int]@);
        push_field_fns(
            config,
            record,
            &names,
            &record.fields[i],
            handle_name,
            callback_names,
            known_enum_types,
            known_records,
            &mut out,
        );
        i = i + 1;
    }
    assert(fs.take(i as int) =~= fs);
    out
}


// ---------------------------------------------------------------------------
// Records
// ---------------------------------------------------------------------------

/// A parameter list to expand into default-argument variants, with its group key and the
/// signatures its group declares.
pub struct VariantSource {
    pub params: Seq<CppParamV>,
    pub key: EmittedKey,
    pub existing: Seq<Seq<Seq<char>>>,
}

/// `(source index, length)` for every variant kept, sources in order, sharing one emitted set.
pub open spec fn variant_pairs(
    srcs: Seq<VariantSource>,
    em0: Seq<(EmittedKey, Seq<Seq<char>>)>,
) -> (Seq<(int, int)>, Seq<(EmittedKey, Seq<Seq<char>>)>)
    decreases srcs.len(),
{
    if srcs.len() == 0 {
        (seq![], em0)
    } else {
        let (prev, em) = variant_pairs(srcs.drop_last(), em0);
        let s = srcs.last();
        let (lens, em2) = variants_from(s.params, s.existing, s.key, em, variant_lens(s.params));
        (prev + lens.map_values(|l: int| (srcs.len() - 1, l)), em2)
    }
}

/// The signatures of the parameter lists among `ms` whose method has key `key`.
pub open spec fn group_sigs(ms: Seq<CppMethodV>, key: EmittedKey) -> Seq<Seq<Seq<char>>>
    decreases ms.len(),
{
    if ms.len() == 0 {
        seq![]
    } else {
        let prev = group_sigs(ms.drop_last(), key);
        if (ms.last().name, ms.last().is_const) == key {
            prev.push(sig(ms.last().params))
        } else {
            prev
        }
    }
}

pub open spec fn ctor_sources(cs: Seq<Seq<CppParamV>>) -> Seq<VariantSource> {
    cs.map_values(
        |ps: Seq<CppParamV>|
            VariantSource {
                params: ps,
                key: (Seq::empty(), false),
                existing: cs.map_values(|c: Seq<CppParamV>| sig(c)),
            },
    )
}

pub open spec fn method_sources(ms: Seq<CppMethodV>) -> Seq<VariantSource> {
    ms.map_values(
        |m: CppMethodV|
            VariantSource {
                params: m.params,
                key: (m.name, m.is_const),
                existing: group_sigs(ms, (m.name, m.is_const)),
            },
    )
}

/// Functions and skips accumulated while normalizing.
pub struct NormState {
    pub fns: Seq<IrFunctionV>,
    pub skipped: Seq<(Seq<char>, Seq<char>)>,
}

/// The outcomes applied in order; the first failure stops.
pub open spec fn apply_outcomes(s0: NormState, outs: Seq<(Seq<char>, Outcome)>) -> Result<
    NormState,
    Seq<char>,
>
    decreases outs.len(),
{
    if outs.len() == 0 {
        Ok(s0)
    } else {
        match apply_outcomes(s0, outs.drop_last()) {
            Err(e) => Err(e),
            Ok(s) => match outs.last().1 {
                Outcome::Skip(r) => Ok(
                    NormState { fns: s.fns, skipped: s.skipped.push((outs.last().0, r)) },
                ),
                Outcome::Emit(f) => Ok(NormState { fns: s.fns.push(f), skipped: s.skipped }),
                Outcome::Fail(e) => Err(e),
            },
        }
    }
}

pub open spec fn ctor_outcomes(
    ns: Seq<Seq<char>>,
    name: Seq<char>,
    h: Seq<char>,
    cs: Seq<Seq<CppParamV>>,
    env: TypeEnv,
) -> Seq<(Seq<char>, Outcome)> {
    variant_pairs(ctor_sources(cs), seq![]).0.map_values(
        |p: (int, int)| (qualified(ns, name), norm_ctor(ns, name, h, cs[p.0].take(p.1), env)),
    )
}

pub open spec fn method_outcomes(
    ns: Seq<Seq<char>>,
    name: Seq<char>,
    h: Seq<char>,
    ms: Seq<CppMethodV>,
    env: TypeEnv,
) -> Seq<(Seq<char>, Outcome)> {
    variant_pairs(method_sources(ms), seq![]).0.map_values(
        |p: (int, int)|
            (
                qualified(ns, name) + "::"@ + ms[p.0].name,
                norm_method(ns, name, h, ms[p.0], ms[p.0].params.take(p.1), env),
            ),
    )
}

pub open spec fn abstract_reason() -> Seq<char> {
    "abstract class: has pure virtual methods; constructor wrapper omitted"@
}

pub open spec fn no_ctor_message(q: Seq<char>) -> Seq<char> {
    "class "@ + q
        + " declares constructors, but none were eligible for wrapper generation; refusing to synthesize a default constructor"@
}

pub open spec fn dtor_fn(
    ns: Seq<Seq<char>>,
    name: Seq<char>,
    h: Seq<char>,
    has_destructor: bool,
) -> IrFunctionV {
    let q = qualified(ns, name);
    IrFunctionV {
        name: sym(ns, name, "delete"@),
        kind: IrFunctionKind::Destructor,
        cpp_name: if has_destructor {
            "~"@ + q
        } else {
            q
        },
        method_of: Some(h),
        owner_cpp_type: Some(q),
        is_const: None,
        field_accessor: None,
        returns: prim_tv("void"@),
        params: seq![self_param(q, h, false)],
    }
}

/// The functions of a record, and the skipped list after it: constructors (none for an
/// abstract class, a default one when none is declared), the destructor, the methods,
/// then for a struct the field accessors.
#[verifier::opaque]
pub open spec fn norm_record(
    r: crate::parsed::CppRecordV,
    h: Seq<char>,
    env: TypeEnv,
    sk0: Seq<(Seq<char>, Seq<char>)>,
) -> Result<NormState, Seq<char>> {
    let q = qualified(r.namespace, r.name);
    let start = NormState { fns: seq![], skipped: sk0 };
    let ctors: Result<NormState, Seq<char>> = if r.is_abstract {
        Ok(NormState { fns: seq![], skipped: sk0.push((q, abstract_reason())) })
    } else if r.constructors.len() == 0 {
        Ok(NormState { fns: seq![ctor_fn(r.namespace, r.name, h, seq![])], skipped: sk0 })
    } else {
        match apply_outcomes(start, ctor_outcomes(r.namespace, r.name, h, r.constructors, env)) {
            Err(e) => Err(e),
            Ok(s) => if s.fns.len() == 0 {
                Err(no_ctor_message(q))
            } else {
                Ok(s)
            },
        }
    };
    match ctors {
        Err(e) => Err(e),
        Ok(s1) => {
            let s2 = NormState {
                fns: s1.fns.push(dtor_fn(r.namespace, r.name, h, r.has_destructor)),
                skipped: s1.skipped,
            };
            match apply_outcomes(s2, method_outcomes(r.namespace, r.name, h, r.methods, env)) {
                Err(e) => Err(e),
                Ok(s3) => Ok(
                    NormState {
                        fns: if r.kind == crate::kind::RecordKind::Struct {
                            s3.fns + fields_fns(
                                r.namespace,
                                r.name,
                                h,
                                r.methods.map_values(|m: CppMethodV| m.name),
                                r.fields,
                                env,
                            )
                        } else {
                            s3.fns
                        },
                        skipped: s3.skipped,
                    },
                ),
            }
        },
    }
}

pub open spec fn state_of(fns: Seq<IrFunction>, sk: Seq<SkippedDeclaration>) -> NormState {
    NormState { fns: crate::ir::functions_view(fns), skipped: skipped_view(sk) }
}

/// Applies one outcome reported by a normalizer to the accumulated state.
proof fn lemma_apply_step(
    s0: NormState,
    outs: Seq<(Seq<char>, Outcome)>,
    k: int,
)
    requires
        0 <= k < outs.len(),
    ensures
        outs.take(k + 1).drop_last() == outs.take(k),
        outs.take(k + 1).last() == outs[k],
{
    assert(outs.take(k + 1).drop_last() =~= outs.take(k));
}

/// A failure on a prefix is the failure of all outcomes.
pub proof fn lemma_apply_err_extends(s0: NormState, outs: Seq<(Seq<char>, Outcome)>, k: int)
    requires
        0 <= k <= outs.len(),
        apply_outcomes(s0, outs.take(k)) is Err,
    ensures
        apply_outcomes(s0, outs) == apply_outcomes(s0, outs.take(k)),
    decreases outs.len() - k,
{
    if k < outs.len() {
        assert(outs.take(k + 1).drop_last() =~= outs.take(k));
        lemma_apply_err_extends(s0, outs, k + 1);
    } else {
        assert(outs.take(k) =~= outs);
    }
}

fn ctor_signatures(record: &crate::parsed::CppRecord) -> (r: Vec<Vec<String>>)
    ensures
        sigs_view(r@) == record@.constructors.map_values(|c: Seq<CppParamV>| sig(c)),
{
    let mut r: Vec<Vec<String>> = Vec::new();
    let mut i: usize = 0;
    while i < record.constructors.len()
        invariant
            i <= record.constructors.len(),
            sigs_view(r@) =~= record@.constructors.take(i as int).map_values(
                |c: Seq<CppParamV>| sig(c),
            ),
        decreases record.constructors.len() - i,
    {
        let ps = &record.constructors[i].params;
        let sg = param_signature(ps.as_slice(), ps.len());
        assert(cparams(ps@).take(ps.len() as int) =~= cparams(ps@));
        let ghost before = r@;
        r.push(sg);
        assert(sigs_view(r@) =~= sigs_view(before).push(strs(sg@)));
        assert(record@.constructors.take(i + 1) =~= record@.constructors.take(i as int).push(
            record@.constructors[i as int],
        ));
        i = i + 1;
    }
    assert(record@.constructors.take(i as int) =~= record@.constructors);
    r
}

fn method_group_signatures(methods: &Vec<CppMethod>, name: &String, is_const: bool) -> (r: Vec<
    Vec<String>,
>)
    ensures
        sigs_view(r@) == group_sigs(methods@.map_values(|m: CppMethod| m@), (name@, is_const)),
{
    let ghost ms = methods@.map_values(|m: CppMethod| m@);
    let mut r: Vec<Vec<String>> = Vec::new();
    let mut i: usize = 0;
    let nv = chars_of(name.as_str());
    while i < methods.len()
        invariant
            i <= methods.len(),
            nv@ == name@,
            ms == methods@.map_values(|m: CppMethod| m@),
            sigs_view(r@) == group_sigs(ms.take(i as int), (name@, is_const)),
        decreases methods.len() - i,
    {
        let m = &methods[i];
        assert(ms.take(i + 1).drop_last() =~= ms.take(i as int));
        assert(ms.take(i + 1).last() == m@);
        let mv = chars_of(m.name.as_str());
        if seq_eq(mv.as_slice(), nv.as_slice()) && m.is_const == is_const {
            let sg = param_signature(m.params.as_slice(), m.params.len());
            assert(cparams(m.params@).take(m.params.len() as int) =~= cparams(m.params@));
            let ghost before = r@;
            r.push(sg);
            assert(sigs_view(r@) =~= sigs_view(before).push(strs(sg@)));
        }
        i = i + 1;
    }
    assert(ms.take(i as int) =~= ms);
    r
}

/// Appends `(k, l)` for each `l` of `lens`.
pub fn push_pairs_pub(pairs: &mut Vec<(usize, usize)>, k: usize, lens: &Vec<usize>)
    ensures
        final(pairs)@.map_values(|p: (usize, usize)| (p.0 as int, p.1 as int)) == old(
            pairs,
        )@.map_values(|p: (usize, usize)| (p.0 as int, p.1 as int)) + lens@.map_values(
            |l: usize| l as int,
        ).map_values(|l: int| (k as int, l)),
        forall|j: int|
            old(pairs)@.len() <= j < final(pairs)@.len() ==> final(pairs)@[j].0 == k && exists|
                t: int,
            | 0 <= t < lens@.len() && final(pairs)@[j].1 == lens@[t],
        forall|j: int| 0 <= j < old(pairs)@.len() ==> final(pairs)@[j] == old(pairs)@[j],
{
    let ghost start = pairs@;
    let mut i: usize = 0;
    while i < lens.len()
        invariant
            i <= lens.len(),
            pairs@.len() == start.len() + i,
            forall|j: int| 0 <= j < start.len() ==> pairs@[j] == start[j],
            forall|j: int| 0 <= j < i ==> pairs@[start.len() + j] == (k, lens@[j]),
        decreases lens.len() - i,
    {
        pairs.push((k, lens[i]));
        i = i + 1;
    }
    assert(pairs@.map_values(|p: (usize, usize)| (p.0 as int, p.1 as int)) =~= start.map_values(
        |p: (usize, usize)| (p.0 as int, p.1 as int),
    ) + lens@.map_values(|l: usize| l as int).map_values(|l: int| (k as int, l)));
    assert forall|j: int| start.len() <= j < pairs@.len() implies pairs@[j].0 == k && exists|t: int|
        0 <= t < lens@.len() && pairs@[j].1 == lens@[t] by {
        assert(pairs@[j] == (k, lens@[j - start.len()]));
    }
}


pub open spec fn pairs_view(v: Seq<(usize, usize)>) -> Seq<(int, int)> {
    v.map_values(|p: (usize, usize)| (p.0 as int, p.1 as int))
}

fn ctor_variant_pairs(record: &crate::parsed::CppRecord) -> (r: Vec<(usize, usize)>)
    ensures
        pairs_view(r@) == variant_pairs(ctor_sources(record@.constructors), seq![]).0,
        forall|j: int|
            0 <= j < r@.len() ==> r@[j].0 < record.constructors@.len() && r@[j].1
                <= record.constructors@[r@[j].0 as int].params@.len(),
{
    let existing = ctor_signatures(record);
    let ghost cs = record@.constructors;
    let ghost srcs = ctor_sources(cs);
    let mut emitted: Vec<EmittedSig> = Vec::new();
    let mut pairs: Vec<(usize, usize)> = Vec::new();
    let mut i: usize = 0;
    proof {
        reveal_strlit("");
    }
    assert(srcs.take(0) =~= Seq::<VariantSource>::empty());
    assert(pairs_view(pairs@) =~= Seq::<(int, int)>::empty());
    assert(emitted_view(emitted@) =~= Seq::<(EmittedKey, Seq<Seq<char>>)>::empty());
    while i < record.constructors.len()
        invariant
            i <= record.constructors.len(),
            cs == record@.constructors,
            srcs == ctor_sources(cs),
            ""@ == Seq::<char>::empty(),
            sigs_view(existing@) == cs.map_values(|c: Seq<CppParamV>| sig(c)),
            pairs_view(pairs@) == variant_pairs(srcs.take(i as int), seq![]).0,
            emitted_view(emitted@) == variant_pairs(srcs.take(i as int), seq![]).1,
            forall|j: int|
                0 <= j < pairs@.len() ==> pairs@[j].0 < i && pairs@[j].1
                    <= record.constructors@[pairs@[j].0 as int].params@.len(),
        decreases record.constructors.len() - i,
    {
        assert(srcs.take(i + 1).drop_last() =~= srcs.take(i as int));
        assert(srcs.take(i + 1).last() == srcs[i as int]);
        assert(srcs[i as int].params == cparams(record.constructors@[i as int].params@));
        let lens = default_argument_param_variants(
            record.constructors[i].params.as_slice(),
            &existing,
            "",
            false,
            &mut emitted,
        );
        push_pairs_pub(&mut pairs, i, &lens);
        i = i + 1;
    }
    assert(srcs.take(i as int) =~= srcs);
    pairs
}

fn method_variant_pairs(record: &crate::parsed::CppRecord) -> (r: Vec<(usize, usize)>)
    ensures
        pairs_view(r@) == variant_pairs(method_sources(record@.methods), seq![]).0,
        forall|j: int|
            0 <= j < r@.len() ==> r@[j].0 < record.methods@.len() && r@[j].1
                <= record.methods@[r@[j].0 as int].params@.len(),
{
    let ghost ms = record@.methods;
    let ghost srcs = method_sources(ms);
    let mut emitted: Vec<EmittedSig> = Vec::new();
    let mut pairs: Vec<(usize, usize)> = Vec::new();
    let mut i: usize = 0;
    assert(srcs.take(0) =~= Seq::<VariantSource>::empty());
    assert(pairs_view(pairs@) =~= Seq::<(int, int)>::empty());
    assert(emitted_view(emitted@) =~= Seq::<(EmittedKey, Seq<Seq<char>>)>::empty());
    assert(ms =~= record.methods@.map_values(|m: CppMethod| m@));
    while i < record.methods.len()
        invariant
            i <= record.methods.len(),
            ms == record@.methods,
            ms == record.methods@.map_values(|m: CppMethod| m@),
            srcs == method_sources(ms),
            pairs_view(pairs@) == variant_pairs(srcs.take(i as int), seq![]).0,
            emitted_view(emitted@) == variant_pairs(srcs.take(i as int), seq![]).1,
            forall|j: int|
                0 <= j < pairs@.len() ==> pairs@[j].0 < i && pairs@[j].1
                    <= record.methods@[pairs@[j].0 as int].params@.len(),
        decreases record.methods.len() - i,
    {
        let m = &record.methods[i];
        assert(srcs.take(i + 1).drop_last() =~= srcs.take(i as int));
        assert(srcs.take(i + 1).last() == srcs[i as int]);
        assert(ms[i as int] == m@);
        let existing = method_group_signatures(&record.methods, &m.name, m.is_const);
        let lens = default_argument_param_variants(
            m.params.as_slice(),
            &existing,
            m.name.as_str(),
            m.is_const,
            &mut emitted,
        );
        push_pairs_pub(&mut pairs, i, &lens);
        i = i + 1;
    }
    assert(srcs.take(i as int) =~= srcs);
    pairs
}

fn apply_ctor_phase(
    config: &Config,
    record: &crate::parsed::CppRecord,
    handle_name: &str,
    pairs: &Vec<(usize, usize)>,
    callback_names: &Vec<String>,
    known_enum_types: &Vec<String>,
    known_records: &[IrRecord],
    functions: &mut Vec<IrFunction>,
    skipped: &mut Vec<SkippedDeclaration>,
) -> (r: Result<(), String>)
    requires
        pairs_view(pairs@) == variant_pairs(ctor_sources(record@.constructors), seq![]).0,
        forall|j: int|
            0 <= j < pairs@.len() ==> pairs@[j].0 < record.constructors@.len() && pairs@[j].1
                <= record.constructors@[pairs@[j].0 as int].params@.len(),
    ensures
        match apply_outcomes(
            state_of(old(functions)@, old(skipped)@),
            ctor_outcomes(
                record@.namespace,
                record@.name,
                handle_name@,
                record@.constructors,
                env_of(callback_names, known_enum_types, known_records),
            ),
        ) {
            Ok(s) => r is Ok && state_of(final(functions)@, final(skipped)@) == s,
            Err(e) => r is Err && r->Err_0@ == e,
        },
{
    let ghost s0 = state_of(functions@, skipped@);
    let ghost outs = ctor_outcomes(
        record@.namespace,
        record@.name,
        handle_name@,
        record@.constructors,
        env_of(callback_names, known_enum_types, known_records),
    );
    let mut k: usize = 0;
    assert(outs.take(0) =~= Seq::<(Seq<char>, Outcome)>::empty());
    while k < pairs.len()
        invariant
            k <= pairs.len(),
            pairs.len() == outs.len(),
            outs == ctor_outcomes(
                record@.namespace,
                record@.name,
                handle_name@,
                record@.constructors,
                env_of(callback_names, known_enum_types, known_records),
            ),
            pairs_view(pairs@) == variant_pairs(ctor_sources(record@.constructors), seq![]).0,
            forall|j: int|
                0 <= j < pairs@.len() ==> pairs@[j].0 < record.constructors@.len() && pairs@[j].1
                    <= record.constructors@[pairs@[j].0 as int].params@.len(),
            apply_outcomes(s0, outs.take(k as int)) == Ok::<NormState, Seq<char>>(
                state_of(functions@, skipped@),
            ),
            s0 == state_of(old(functions)@, old(skipped)@),
        decreases pairs.len() - k,
    {
        let (ci, len) = pairs[k];
        proof {
            lemma_apply_step(s0, outs, k as int);
            assert(pairs_view(pairs@)[k as int] == (ci as int, len as int));
        }
        let params = record.constructors[ci].params.as_slice();
        let sub = vstd::slice::slice_subrange(params, 0, len);
        proof {
            lemma_cparams_prefix(params@, len as int);
        }
        let r = normalize_constructor(
            config,
            &record.namespace,
            record.name.as_str(),
            handle_name,
            sub,
            callback_names,
            known_enum_types,
            known_records,
            skipped,
        );
        match r {
            Ok(Some(f)) => {
                push_fn(functions, f);
            },
            Ok(None) => {},
            Err(e) => {
                assert(outs[k as int].1 == Outcome::Fail(e@));
                assert(apply_outcomes(s0, outs.take(k + 1)) == Err::<NormState, Seq<char>>(e@));
                proof {
                    lemma_apply_err_extends(s0, outs, k + 1);
                }
                return Err(e);
            },
        }
        k = k + 1;
    }
    assert(outs.take(k as int) =~= outs);
    Ok(())
}

fn apply_method_phase(
    config: &Config,
    record: &crate::parsed::CppRecord,
    handle_name: &str,
    pairs: &Vec<(usize, usize)>,
    abstract_types: &Vec<String>,
    callback_names: &Vec<String>,
    known_enum_types: &Vec<String>,
    known_records: &[IrRecord],
    functions: &mut Vec<IrFunction>,
    skipped: &mut Vec<SkippedDeclaration>,
) -> (r: Result<(), String>)
    requires
        pairs_view(pairs@) == variant_pairs(method_sources(record@.methods), seq![]).0,
        forall|j: int|
            0 <= j < pairs@.len() ==> pairs@[j].0 < record.methods@.len() && pairs@[j].1
                <= record.methods@[pairs@[j].0 as int].params@.len(),
    ensures
        match apply_outcomes(
            state_of(old(functions)@, old(skipped)@),
            method_outcomes(
                record@.namespace,
                record@.name,
                handle_name@,
                record@.methods,
                env_of(callback_names, known_enum_types, known_records),
            ),
        ) {
            Ok(s) => r is Ok && state_of(final(functions)@, final(skipped)@) == s,
            Err(e) => r is Err && r->Err_0@ == e,
        },
{
    let ghost s0 = state_of(functions@, skipped@);
    let ghost outs = method_outcomes(
        record@.namespace,
        record@.name,
        handle_name@,
        record@.methods,
        env_of(callback_names, known_enum_types, known_records),
    );
    let mut k: usize = 0;
    assert(outs.take(0) =~= Seq::<(Seq<char>, Outcome)>::empty());
    while k < pairs.len()
        invariant
            k <= pairs.len(),
            pairs.len() == outs.len(),
            outs == method_outcomes(
                record@.namespace,
                record@.name,
                handle_name@,
                record@.methods,
                env_of(callback_names, known_enum_types, known_records),
            ),
            pairs_view(pairs@) == variant_pairs(method_sources(record@.methods), seq![]).0,
            forall|j: int|
                0 <= j < pairs@.len() ==> pairs@[j].0 < record.methods@.len() && pairs@[j].1
                    <= record.methods@[pairs@[j].0 as int].params@.len(),
            apply_outcomes(s0, outs.take(k as int)) == Ok::<NormState, Seq<char>>(
                state_of(functions@, skipped@),
            ),
            s0 == state_of(old(functions)@, old(skipped)@),
        decreases pairs.len() - k,
    {
        let (mi, len) = pairs[k];
        proof {
            lemma_apply_step(s0, outs, k as int);
            assert(pairs_view(pairs@)[k as int] == (mi as int, len as int));
        }
        let method = &record.methods[mi];
        let params = method.params.as_slice();
        let sub = vstd::slice::slice_subrange(params, 0, len);
        proof {
            lemma_cparams_prefix(params@, len as int);
        }
        let r = normalize_method(
            config,
            &record.namespace,
            record.name.as_str(),
            handle_name,
            method,
            sub,
            abstract_types,
            callback_names,
            known_enum_types,
            known_records,
            skipped,
        );
        match r {
            Ok(Some(f)) => {
                push_fn(functions, f);
            },
            Ok(None) => {},
            Err(e) => {
                assert(outs[k as int].1 == Outcome::Fail(e@));
                assert(apply_outcomes(s0, outs.take(k + 1)) == Err::<NormState, Seq<char>>(e@));
                proof {
                    lemma_apply_err_extends(s0, outs, k + 1);
                }
                return Err(e);
            },
        }
        k = k + 1;
    }
    assert(outs.take(k as int) =~= outs);
    Ok(())
}


fn no_ctor_error(q: &String) -> (r: String)
    ensures
        r@ == no_ctor_message(q@),
{
    let mut m = String::from_str("class ");
    push_string(&mut m, q);
    push_str(
        &mut m,
        " declares constructors, but none were eligible for wrapper generation; refusing to synthesize a default constructor",
    );
    m
}

/// Normalizes a record into its functions (see `norm_record`), appending skipped
/// declarations.
pub fn normalize_record(
    config: &Config,
    record: &crate::parsed::CppRecord,
    handle_name: &str,
    abstract_types: &Vec<String>,
    callback_names: &Vec<String>,
    known_enum_types: &Vec<String>,
    known_records: &[IrRecord],
    skipped_declarations: &mut Vec<SkippedDeclaration>,
) -> (r: Result<Vec<IrFunction>, String>)
    ensures
        match norm_record(
            record@,
            handle_name@,
            env_of(callback_names, known_enum_types, known_records),
            skipped_view(old(skipped_declarations)@),
        ) {
            Ok(s) => r is Ok && crate::ir::functions_view(r->Ok_0@) == s.fns && skipped_view(
                final(skipped_declarations)@,
            ) == s.skipped,
            Err(e) => r is Err && r->Err_0@ == e,
        },
{
    reveal(norm_record);
    let ghost env = env_of(callback_names, known_enum_types, known_records);
    let ghost sk0 = skipped_view(skipped_declarations@);
    let q = cpp_qualified(record.namespace.as_slice(), record.name.as_str());
    let mut functions: Vec<IrFunction> = Vec::new();
    assert(crate::ir::functions_view(functions@) =~= Seq::<IrFunctionV>::empty());
    if record.is_abstract {
        skip(
            skipped_declarations,
            q.clone(),
            String::from_str("abstract class: has pure virtual methods; constructor wrapper omitted"),
        );
    } else if record.constructors.len() == 0 {
        let mut no_params: Vec<IrParam> = Vec::new();
        assert(params_view(no_params@) =~= Seq::<IrParamV>::empty());
        let f = IrFunction {
            name: symbol_name(config, record.namespace.as_slice(), record.name.as_str(), "new"),
            kind: IrFunctionKind::Constructor,
            cpp_name: q.clone(),
            method_of: Some(String::from_str(handle_name)),
            owner_cpp_type: Some(q.clone()),
            is_const: None,
            field_accessor: None,
            returns: opaque_type(q.clone(), handle_name, false),
            params: no_params,
        };
        push_fn(&mut functions, f);
    } else {
        let pairs = ctor_variant_pairs(record);
        match apply_ctor_phase(
            config,
            record,
            handle_name,
            &pairs,
            callback_names,
            known_enum_types,
            known_records,
            &mut functions,
            skipped_declarations,
        ) {
            Ok(()) => {},
            Err(e) => return Err(e),
        }
        if functions.len() == 0 {
            return Err(no_ctor_error(&q));
        }
    }
    let mut self_params: Vec<IrParam> = Vec::new();
    self_params.push(make_self_param(q.as_str(), handle_name, false));
    assert(params_view(self_params@) =~= seq![self_param(q@, handle_name@, false)]);
    let cpp_name = if record.has_destructor {
        let mut n = String::from_str("~");
        push_string(&mut n, &q);
        n
    } else {
        q.clone()
    };
    let dtor = IrFunction {
        name: symbol_name(config, record.namespace.as_slice(), record.name.as_str(), "delete"),
        kind: IrFunctionKind::Destructor,
        cpp_name,
        method_of: Some(String::from_str(handle_name)),
        owner_cpp_type: Some(q.clone()),
        is_const: None,
        field_accessor: None,
        returns: primitive_type("void"),
        params: self_params,
    };
    push_fn(&mut functions, dtor);
    let pairs = method_variant_pairs(record);
    match apply_method_phase(
        config,
        record,
        handle_name,
        &pairs,
        abstract_types,
        callback_names,
        known_enum_types,
        known_records,
        &mut functions,
        skipped_declarations,
    ) {
        Ok(()) => {},
        Err(e) => return Err(e),
    }
    if record.kind == crate::kind::RecordKind::Struct {
        let extra = normalize_struct_fields(
            config,
            record,
            handle_name,
            callback_names,
            known_enum_types,
            known_records,
        );
        let ghost before = crate::ir::functions_view(functions@);
        let mut extra = extra;
        functions.append(&mut extra);
        assert(crate::ir::functions_view(functions@) =~= before + fields_fns(
            record@.namespace,
            record@.name,
            handle_name@,
            record@.methods.map_values(|m: CppMethodV| m.name),
            record@.fields,
            env,
        ));
    }
    Ok(functions)
}

} // verus!
