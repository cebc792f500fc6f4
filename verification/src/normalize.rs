//! Normalization of parsed declarations into the IR: type checks, skip reasons, record
//! handles and model aliases.
use vstd::prelude::*;

use crate::config::Config;
use crate::ir::IrFunctionV;
use crate::text::trim_start_matches;
use crate::context::{alias_lookup, alias_pairs, lookup_alias, ModelAlias};
use crate::ir::{
    contains_str, functions_view, opaques_view, IrParamV, opt_view, records_view, strs, IrFunction, IrRecord, IrRecordV, IrType, IrTypeV,
    OpaqueType,
};
use crate::kind::{is_model_kind, IrTypeKind};
use crate::naming::flatten_qualified_cpp_name;
use crate::parsed::{cparams, CppParam, CppParamV};
use crate::text::{
    chars_of, contains_char, contains_seq, ends_with, eq_lit, join, push_chars, push_str,
    push_string, remove_all, seq_eq, starts_with, starts_with_lit, string_of, trim, trim_vec,
    views,
};
use crate::types::{
    base_model, base_model_vec, ends_with_char, format_type_for_reason, is_double_pointer,
    is_primitive_name, is_supported_primitive, is_unsupported_double_pointer_type, norm_type,
    norm_with_canonical, normalize_type_vec, normalize_type_with_canonical_vec, parse_array,
    parse_array_vec, reason_type, unconst,
};

verus! {

/// `r` is the exec form of the classification result `s`.
pub open spec fn type_result(r: Result<IrType, String>, s: Result<IrTypeV, Seq<char>>) -> bool {
    match s {
        Ok(t) => r is Ok && r->Ok_0@ == t,
        Err(e) => r is Err && r->Err_0@ == e,
    }
}

/// Classifies a C++ type from its written and canonical spellings.
pub fn normalize_type_with_canonical(
    _config: &Config,
    cpp_type: &str,
    canonical_type: &str,
    callback_names: &Vec<String>,
    known_enum_types: &Vec<String>,
    known_records: &[IrRecord],
) -> (r: Result<IrType, String>)
    ensures
        type_result(
            r,
            norm_with_canonical(
                cpp_type@,
                canonical_type@,
                strs(callback_names@),
                strs(known_enum_types@),
                records_view(known_records@),
            ),
        ),
{
    let d = chars_of(cpp_type);
    let c = chars_of(canonical_type);
    normalize_type_with_canonical_vec(
        d.as_slice(),
        c.as_slice(),
        callback_names,
        known_enum_types,
        known_records,
    )
}

/// Whether the base name of `cpp_type` is one of the abstract classes.
pub open spec fn is_abstract(cpp_type: Seq<char>, abstract_types: Seq<Seq<char>>) -> bool {
    base_model(cpp_type).len() > 0 && abstract_types.contains(base_model(cpp_type))
}

pub fn is_abstract_model_type(cpp_type: &str, abstract_types: &Vec<String>) -> (b: bool)
    ensures
        b == is_abstract(cpp_type@, strs(abstract_types@)),
{
    let v = chars_of(cpp_type);
    let base = base_model_vec(v.as_slice());
    base.len() > 0 && contains_str(abstract_types, base.as_slice())
}

/// Return types classify as any other type: a pointer or reference to an abstract class
/// stays a model pointer or reference.
pub fn normalize_return_type_with_canonical(
    config: &Config,
    cpp_type: &str,
    canonical_type: &str,
    abstract_types: &Vec<String>,
    callback_names: &Vec<String>,
    known_enum_types: &Vec<String>,
    known_records: &[IrRecord],
) -> (r: Result<IrType, String>)
    ensures
        type_result(
            r,
            norm_with_canonical(
                cpp_type@,
                canonical_type@,
                strs(callback_names@),
                strs(known_enum_types@),
                records_view(known_records@),
            ),
        ),
{
    let ty = normalize_type_with_canonical(
        config,
        cpp_type,
        canonical_type,
        callback_names,
        known_enum_types,
        known_records,
    );
    match ty {
        Ok(t) => {
            if (t.kind == IrTypeKind::ModelReference || t.kind == IrTypeKind::ModelPointer)
                && is_abstract_model_type(t.cpp_type.as_str(), abstract_types) {
                return Ok(t);
            }
            Ok(t)
        },
        Err(e) => Err(e),
    }
}

// ---------------------------------------------------------------------------
// By-value objects that the raw C ABI cannot pass
// ---------------------------------------------------------------------------

/// A spelling that names a class object by value, which only a model type could carry.
pub open spec fn by_value_candidate(v: Seq<char>) -> bool {
    let t = trim(v);
    if t.len() == 0 || t == "void"@ || ends_with(t, seq!['&']) || ends_with(t, seq!['*']) {
        false
    } else {
        let b = base_model(t);
        b.len() > 0 && !b.contains('<') && !starts_with(b, "std::"@) && !is_primitive_name(b)
    }
}

pub fn is_raw_unsafe_by_value_object_candidate(v: &[char]) -> (b: bool)
    ensures
        b == by_value_candidate(v@),
{
    let t = trim_vec(v);
    if t.len() == 0 || eq_lit(t.as_slice(), "void") || ends_with_char(t.as_slice(), '&')
        || ends_with_char(t.as_slice(), '*') {
        return false;
    }
    let b = base_model_vec(t.as_slice());
    b.len() > 0 && !contains_char(b.as_slice(), '<') && !starts_with_lit(b.as_slice(), "std::")
        && !is_supported_primitive(b.as_slice())
}

#[verifier::opaque]
pub open spec fn unsafe_return(
    d: Seq<char>,
    c: Seq<char>,
    cbs: Seq<Seq<char>>,
    enums: Seq<Seq<char>>,
    recs: Seq<IrRecordV>,
) -> bool {
    let distinct = trim(c).len() > 0 && trim(c) != trim(d);
    if norm_with_canonical(d, c, cbs, enums, recs) is Ok {
        false
    } else if norm_type(d, cbs) is Ok {
        false
    } else if distinct && norm_type(c, cbs) is Ok {
        false
    } else {
        by_value_candidate(d) || (distinct && by_value_candidate(c))
    }
}

pub fn is_raw_unsafe_by_value_return_type(
    display: &[char],
    canonical: &[char],
    callback_names: &Vec<String>,
    known_enum_types: &Vec<String>,
    known_records: &[IrRecord],
) -> (b: bool)
    ensures
        b == unsafe_return(
            display@,
            canonical@,
            strs(callback_names@),
            strs(known_enum_types@),
            records_view(known_records@),
        ),
{
    reveal(unsafe_return);
    if normalize_type_with_canonical_vec(
        display,
        canonical,
        callback_names,
        known_enum_types,
        known_records,
    ).is_ok() {
        return false;
    }
    if normalize_type_vec(display, callback_names).is_ok() {
        return false;
    }
    let td = trim_vec(display);
    let tc = trim_vec(canonical);
    let distinct = tc.len() > 0 && !seq_eq(tc.as_slice(), td.as_slice());
    if distinct && normalize_type_vec(canonical, callback_names).is_ok() {
        return false;
    }
    is_raw_unsafe_by_value_object_candidate(display) || (distinct
        && is_raw_unsafe_by_value_object_candidate(canonical))
}

#[verifier::opaque]
pub open spec fn unsafe_param(
    d: Seq<char>,
    c: Seq<char>,
    cbs: Seq<Seq<char>>,
    enums: Seq<Seq<char>>,
    recs: Seq<IrRecordV>,
) -> bool {
    let td = trim(d);
    let tc = trim(c);
    if norm_with_canonical(td, tc, cbs, enums, recs) is Ok {
        false
    } else {
        (td.len() > 0 && by_value_candidate(td)) || (tc.len() > 0 && by_value_candidate(tc))
    }
}

pub fn is_raw_unsafe_by_value_param_type(
    display: &str,
    canonical: &str,
    callback_names: &Vec<String>,
    known_enum_types: &Vec<String>,
    known_records: &[IrRecord],
) -> (b: bool)
    ensures
        b == unsafe_param(
            display@,
            canonical@,
            strs(callback_names@),
            strs(known_enum_types@),
            records_view(known_records@),
        ),
{
    reveal(unsafe_param);
    let dv = chars_of(display);
    let cv = chars_of(canonical);
    let td = trim_vec(dv.as_slice());
    let tc = trim_vec(cv.as_slice());
    if normalize_type_with_canonical_vec(
        td.as_slice(),
        tc.as_slice(),
        callback_names,
        known_enum_types,
        known_records,
    ).is_ok() {
        return false;
    }
    (td.len() > 0 && is_raw_unsafe_by_value_object_candidate(td.as_slice())) || (tc.len() > 0
        && is_raw_unsafe_by_value_object_candidate(tc.as_slice()))
}

// ---------------------------------------------------------------------------
// Skip reasons
// ---------------------------------------------------------------------------

/// The issues joined by `; `, or none when there are none.
pub open spec fn joined_reason(issues: Seq<Seq<char>>) -> Option<Seq<char>> {
    if issues.len() == 0 {
        None
    } else {
        Some(join(issues, "; "@))
    }
}

/// The issues of the parameters, in order, that `issue` reports one for.
pub open spec fn param_issues(
    ps: Seq<CppParamV>,
    issue: spec_fn(CppParamV) -> Option<Seq<char>>,
) -> Seq<Seq<char>>
    decreases ps.len(),
{
    if ps.len() == 0 {
        seq![]
    } else {
        let rest = param_issues(ps.drop_last(), issue);
        match issue(ps.last()) {
            Some(m) => rest.push(m),
            None => rest,
        }
    }
}

pub open spec fn param_issue_text(p: CppParamV, what: Seq<char>) -> Seq<char> {
    "parameter `"@ + p.name + "` type `"@ + reason_type(p.ty, p.canonical_ty) + "` uses "@ + what
}

/// A function-pointer parameter not typed by a known callback typedef.
pub open spec fn fp_issue(cbs: Seq<Seq<char>>) -> spec_fn(CppParamV) -> Option<Seq<char>> {
    |p: CppParamV|
        if p.is_function_pointer && !(p.callback_typedef matches Some(n) && cbs.contains(n)) {
            Some(param_issue_text(p, "a function pointer"@))
        } else {
            None
        }
}

pub open spec fn dp_issue() -> spec_fn(CppParamV) -> Option<Seq<char>> {
    |p: CppParamV|
        if is_double_pointer(p.ty) || (trim(p.canonical_ty).len() > 0 && is_double_pointer(
            p.canonical_ty,
        )) {
            Some(param_issue_text(p, "an unsupported double-pointer type"@))
        } else {
            None
        }
}

pub open spec fn bv_issue(
    cbs: Seq<Seq<char>>,
    enums: Seq<Seq<char>>,
    recs: Seq<IrRecordV>,
) -> spec_fn(CppParamV) -> Option<Seq<char>> {
    |p: CppParamV|
        if unsafe_param(p.ty, p.canonical_ty, cbs, enums, recs) {
            Some(param_issue_text(p, "a raw-unsafe by-value object type"@))
        } else {
            None
        }
}

pub open spec fn return_issue(d: Seq<char>, c: Seq<char>, what: Seq<char>) -> Seq<char> {
    "return type `"@ + reason_type(d, c) + "` uses "@ + what
}

/// Why a declaration with function pointers cannot be wrapped.
pub open spec fn fp_reason(
    ret: Option<(Seq<char>, Seq<char>, bool)>,
    ps: Seq<CppParamV>,
    cbs: Seq<Seq<char>>,
) -> Option<Seq<char>> {
    let head = match ret {
        Some((d, c, true)) => seq![return_issue(d, c, "a function pointer"@)],
        _ => seq![],
    };
    joined_reason(head + param_issues(ps, fp_issue(cbs)))
}

/// Why a declaration with pointers to pointers cannot be wrapped.
pub open spec fn dp_reason(ret: Option<(Seq<char>, Seq<char>)>, ps: Seq<CppParamV>) -> Option<
    Seq<char>,
> {
    let head = match ret {
        Some((d, c)) => if is_double_pointer(d) || (trim(c).len() > 0 && is_double_pointer(c)) {
            seq![return_issue(d, c, "an unsupported double-pointer type"@)]
        } else {
            seq![]
        },
        None => seq![],
    };
    joined_reason(head + param_issues(ps, dp_issue()))
}

/// Why a declaration passing class objects by value cannot be wrapped.
pub open spec fn bv_reason(
    ret: Option<(Seq<char>, Seq<char>)>,
    ps: Seq<CppParamV>,
    cbs: Seq<Seq<char>>,
    enums: Seq<Seq<char>>,
    recs: Seq<IrRecordV>,
) -> Option<Seq<char>> {
    let head = match ret {
        Some((d, c)) => if unsafe_return(d, c, cbs, enums, recs) {
            seq![return_issue(d, c, "a raw-unsafe by-value object type"@)]
        } else {
            seq![]
        },
        None => seq![],
    };
    joined_reason(head + param_issues(ps, bv_issue(cbs, enums, recs)))
}

fn issue_text(prefix: &str, name: &String, d: &String, c: &String, what: &str) -> (r: String)
    ensures
        r@ == prefix@ + name@ + "` type `"@ + reason_type(d@, c@) + "` uses "@ + what@,
{
    let mut out = String::from_str(prefix);
    push_string(&mut out, name);
    push_str(&mut out, "` type `");
    let dv = chars_of(d.as_str());
    let cv = chars_of(c.as_str());
    let r = format_type_for_reason(dv.as_slice(), cv.as_slice());
    push_chars(&mut out, r.as_slice());
    push_str(&mut out, "` uses ");
    push_str(&mut out, what);
    out
}

fn return_issue_text(d: &str, c: &str, what: &str) -> (r: String)
    ensures
        r@ == return_issue(d@, c@, what@),
{
    let mut out = String::from_str("return type `");
    let dv = chars_of(d);
    let cv = chars_of(c);
    let r = format_type_for_reason(dv.as_slice(), cv.as_slice());
    push_chars(&mut out, r.as_slice());
    push_str(&mut out, "` uses ");
    push_str(&mut out, what);
    out
}

fn join_reason(issues: &Vec<String>) -> (r: Option<String>)
    ensures
        opt_view(r) == joined_reason(views(issues@)),
{
    if issues.len() == 0 {
        None
    } else {
        Some(crate::text::join_strings(issues, "; "))
    }
}

pub fn is_named_callback_param(param: &CppParam, callback_names: &Vec<String>) -> (b: bool)
    ensures
        b == (param@.callback_typedef matches Some(n) && strs(callback_names@).contains(n)),
{
    match &param.callback_typedef {
        Some(n) => {
            let v = chars_of(n.as_str());
            contains_str(callback_names, v.as_slice())
        },
        None => false,
    }
}

pub fn function_pointer_reason(
    return_type: Option<(&str, &str, bool)>,
    params: &[CppParam],
    callback_names: &Vec<String>,
) -> (r: Option<String>)
    ensures
        opt_view(r) == fp_reason(
            match return_type {
                Some((d, c, f)) => Some((d@, c@, f)),
                None => None,
            },
            cparams(params@),
            strs(callback_names@),
        ),
{
    let mut issues: Vec<String> = Vec::new();
    match return_type {
        Some((d, c, true)) => {
            let t = return_issue_text(d, c, "a function pointer");
            issues.push(t);
            assert(views(issues@) =~= seq![return_issue(d@, c@, "a function pointer"@)]);
        },
        _ => {
            assert(views(issues@) =~= Seq::<Seq<char>>::empty());
        },
    }
    let ghost head = views(issues@);
    let ghost ps = cparams(params@);
    let ghost f = fp_issue(strs(callback_names@));
    let mut i: usize = 0;
    while i < params.len()
        invariant
            i <= params.len(),
            ps == cparams(params@),
            f == fp_issue(strs(callback_names@)),
            views(issues@) == head + param_issues(ps.take(i as int), f),
        decreases params.len() - i,
    {
        let p = &params[i];
        assert(ps.take(i + 1).drop_last() =~= ps.take(i as int));
        assert(ps.take(i + 1).last() == p@);
        if p.is_function_pointer && !is_named_callback_param(p, callback_names) {
            let t = issue_text("parameter `", &p.name, &p.ty, &p.canonical_ty, "a function pointer");
            let ghost before = views(issues@);
            issues.push(t);
            assert(views(issues@) =~= before.push(t@));
        }
        i = i + 1;
    }
    assert(ps.take(i as int) =~= ps);
    join_reason(&issues)
}

pub fn double_pointer_reason(return_type: Option<(&str, &str)>, params: &[CppParam]) -> (r:
    Option<String>)
    ensures
        opt_view(r) == dp_reason(
            match return_type {
                Some((d, c)) => Some((d@, c@)),
                None => None,
            },
            cparams(params@),
        ),
{
    let mut issues: Vec<String> = Vec::new();
    match return_type {
        Some((d, c)) => {
            let dv = chars_of(d);
            let cv = chars_of(c);
            let tc = trim_vec(cv.as_slice());
            if is_unsupported_double_pointer_type(dv.as_slice()) || (tc.len() > 0
                && is_unsupported_double_pointer_type(cv.as_slice())) {
                let t = return_issue_text(d, c, "an unsupported double-pointer type");
                issues.push(t);
                assert(views(issues@) =~= seq![
                    return_issue(d@, c@, "an unsupported double-pointer type"@),
                ]);
            } else {
                assert(views(issues@) =~= Seq::<Seq<char>>::empty());
            }
        },
        None => {
            assert(views(issues@) =~= Seq::<Seq<char>>::empty());
        },
    }
    let ghost head = views(issues@);
    let ghost ps = cparams(params@);
    let ghost f = dp_issue();
    let mut i: usize = 0;
    while i < params.len()
        invariant
            i <= params.len(),
            ps == cparams(params@),
            f == dp_issue(),
            views(issues@) == head + param_issues(ps.take(i as int), f),
        decreases params.len() - i,
    {
        let p = &params[i];
        assert(ps.take(i + 1).drop_last() =~= ps.take(i as int));
        assert(ps.take(i + 1).last() == p@);
        let tv = chars_of(p.ty.as_str());
        let cv = chars_of(p.canonical_ty.as_str());
        let tc = trim_vec(cv.as_slice());
        if is_unsupported_double_pointer_type(tv.as_slice()) || (tc.len() > 0
            && is_unsupported_double_pointer_type(cv.as_slice())) {
            let t = issue_text(
                "parameter `",
                &p.name,
                &p.ty,
                &p.canonical_ty,
                "an unsupported double-pointer type",
            );
            let ghost before = views(issues@);
            issues.push(t);
            assert(views(issues@) =~= before.push(t@));
        }
        i = i + 1;
    }
    assert(ps.take(i as int) =~= ps);
    join_reason(&issues)
}

pub fn raw_unsafe_by_value_reason(
    return_type: Option<(&str, &str)>,
    params: &[CppParam],
    callback_names: &Vec<String>,
    known_enum_types: &Vec<String>,
    known_records: &[IrRecord],
) -> (r: Option<String>)
    ensures
        opt_view(r) == bv_reason(
            match return_type {
                Some((d, c)) => Some((d@, c@)),
                None => None,
            },
            cparams(params@),
            strs(callback_names@),
            strs(known_enum_types@),
            records_view(known_records@),
        ),
{
    let mut issues: Vec<String> = Vec::new();
    match return_type {
        Some((d, c)) => {
            let dv = chars_of(d);
            let cv = chars_of(c);
            if is_raw_unsafe_by_value_return_type(
                dv.as_slice(),
                cv.as_slice(),
                callback_names,
                known_enum_types,
                known_records,
            ) {
                let t = return_issue_text(d, c, "a raw-unsafe by-value object type");
                issues.push(t);
                assert(views(issues@) =~= seq![
                    return_issue(d@, c@, "a raw-unsafe by-value object type"@),
                ]);
            } else {
                assert(views(issues@) =~= Seq::<Seq<char>>::empty());
            }
        },
        None => {
            assert(views(issues@) =~= Seq::<Seq<char>>::empty());
        },
    }
    let ghost head = views(issues@);
    let ghost ps = cparams(params@);
    let ghost f = bv_issue(
        strs(callback_names@),
        strs(known_enum_types@),
        records_view(known_records@),
    );
    let mut i: usize = 0;
    while i < params.len()
        invariant
            i <= params.len(),
            ps == cparams(params@),
            f == bv_issue(
                strs(callback_names@),
                strs(known_enum_types@),
                records_view(known_records@),
            ),
            views(issues@) == head + param_issues(ps.take(i as int), f),
        decreases params.len() - i,
    {
        let p = &params[i];
        assert(ps.take(i + 1).drop_last() =~= ps.take(i as int));
        assert(ps.take(i + 1).last() == p@);
        if is_raw_unsafe_by_value_param_type(
            p.ty.as_str(),
            p.canonical_ty.as_str(),
            callback_names,
            known_enum_types,
            known_records,
        ) {
            let t = issue_text(
                "parameter `",
                &p.name,
                &p.ty,
                &p.canonical_ty,
                "a raw-unsafe by-value object type",
            );
            let ghost before = views(issues@);
            issues.push(t);
            assert(views(issues@) =~= before.push(t@));
        }
        i = i + 1;
    }
    assert(ps.take(i as int) =~= ps);
    join_reason(&issues)
}


// ---------------------------------------------------------------------------
// Opaque handle types referenced by functions
// ---------------------------------------------------------------------------

/// The return type and then the parameter types of a function.
pub open spec fn fn_types(f: IrFunctionV) -> Seq<IrTypeV> {
    seq![f.returns] + f.params.map_values(|p: IrParamV| p.ty)
}

/// The types of all functions, in order.
pub open spec fn all_types(fs: Seq<IrFunctionV>) -> Seq<IrTypeV>
    decreases fs.len(),
{
    if fs.len() == 0 {
        seq![]
    } else {
        all_types(fs.drop_last()) + fn_types(fs.last())
    }
}

/// The opaque types added for model handles not yet known, scanning `ts` in order:
/// one per new handle, with the model's base type.
pub open spec fn opaque_additions(known: Seq<Seq<char>>, ts: Seq<IrTypeV>) -> Seq<
    (Seq<char>, Seq<char>),
>
    decreases ts.len(),
{
    if ts.len() == 0 {
        seq![]
    } else {
        let prev = opaque_additions(known, ts.drop_last());
        let t = ts.last();
        match t.handle {
            Some(h) => if !known.contains(h) && !prev.map_values(
                |o: (Seq<char>, Seq<char>)| o.0,
            ).contains(h) && is_model_kind(t.kind) {
                prev.push((h, base_model(t.cpp_type)))
            } else {
                prev
            },
            None => prev,
        }
    }
}

fn note_type(
    opaque_types: &mut Vec<OpaqueType>,
    known: &mut Vec<String>,
    ty: &IrType,
    Ghost(known0): Ghost<Seq<Seq<char>>>,
    Ghost(base): Ghost<Seq<(Seq<char>, Seq<char>)>>,
    Ghost(ts): Ghost<Seq<IrTypeV>>,
)
    requires
        opaques_view(old(opaque_types)@) == base + opaque_additions(known0, ts),
        strs(old(known)@) == known0 + opaque_additions(known0, ts).map_values(
            |o: (Seq<char>, Seq<char>)| o.0,
        ),
    ensures
        opaques_view(final(opaque_types)@) == base + opaque_additions(known0, ts.push(ty@)),
        strs(final(known)@) == known0 + opaque_additions(known0, ts.push(ty@)).map_values(
            |o: (Seq<char>, Seq<char>)| o.0,
        ),
{
    let ghost prev = opaque_additions(known0, ts);
    let ghost names = prev.map_values(|o: (Seq<char>, Seq<char>)| o.0);
    assert(ts.push(ty@).drop_last() =~= ts);
    match &ty.handle {
        Some(h) => {
            let hv = chars_of(h.as_str());
            if contains_str(known, hv.as_slice()) {
                proof {
                    let k = choose|k: int| 0 <= k < strs(known@).len() && strs(known@)[k] == h@;
                    if k < known0.len() {
                        assert(known0.contains(h@));
                    } else {
                        assert(names[k - known0.len()] == h@);
                        assert(names.contains(h@));
                    }
                }
                return;
            }
            proof {
                assert(!known0.contains(h@)) by {
                    if known0.contains(h@) {
                        let k = choose|k: int| 0 <= k < known0.len() && known0[k] == h@;
                        assert(strs(known@)[k] == h@);
                    }
                }
                assert(!names.contains(h@)) by {
                    if names.contains(h@) {
                        let k = choose|k: int| 0 <= k < names.len() && names[k] == h@;
                        assert(strs(known@)[known0.len() + k] == h@);
                    }
                }
            }
            if ty.kind == IrTypeKind::ModelReference || ty.kind == IrTypeKind::ModelPointer
                || ty.kind == IrTypeKind::ModelValue {
                let cpp = chars_of(ty.cpp_type.as_str());
                let b = base_model_vec(cpp.as_slice());
                let o = OpaqueType { name: h.clone(), cpp_type: string_of(b.as_slice()) };
                let ghost before = opaque_types@;
                let ghost kbefore = known@;
                opaque_types.push(o);
                known.push(h.clone());
                assert(opaques_view(opaque_types@) =~= opaques_view(before).push((h@, b@)));
                assert(strs(known@) =~= strs(kbefore).push(h@));
                assert(prev.push((h@, b@)).map_values(|o: (Seq<char>, Seq<char>)| o.0)
                    =~= names.push(h@));
            }
        },
        None => {},
    }
}

/// Registers an opaque type for each model handle that functions use and no opaque
/// type names yet.
pub fn collect_referenced_opaque_types(opaque_types: &mut Vec<OpaqueType>, functions: &[IrFunction])
    ensures
        opaques_view(final(opaque_types)@) == opaques_view(old(opaque_types)@) + opaque_additions(
            opaques_view(old(opaque_types)@).map_values(|o: (Seq<char>, Seq<char>)| o.0),
            all_types(functions_view(functions@)),
        ),
{
    let ghost base = opaques_view(opaque_types@);
    let ghost known0 = base.map_values(|o: (Seq<char>, Seq<char>)| o.0);
    let mut known: Vec<String> = Vec::new();
    let mut k: usize = 0;
    while k < opaque_types.len()
        invariant
            k <= opaque_types.len(),
            opaques_view(opaque_types@) == base,
            known0 == base.map_values(|o: (Seq<char>, Seq<char>)| o.0),
            strs(known@) =~= known0.take(k as int),
        decreases opaque_types.len() - k,
    {
        let n = opaque_types[k].name.clone();
        let ghost before = known@;
        known.push(n);
        assert(strs(known@) =~= strs(before).push(n@));
        assert(known0.take(k + 1) =~= known0.take(k as int).push(known0[k as int]));
        k = k + 1;
    }
    assert(known0.take(k as int) =~= known0);
    let ghost fs = functions_view(functions@);
    assert(opaque_additions(known0, seq![]) =~= Seq::<(Seq<char>, Seq<char>)>::empty());
    assert(opaques_view(opaque_types@) =~= base + opaque_additions(known0, all_types(fs.take(0))));
    assert(strs(known@) =~= known0 + opaque_additions(known0, all_types(fs.take(0))).map_values(
        |o: (Seq<char>, Seq<char>)| o.0,
    ));
    let mut i: usize = 0;
    while i < functions.len()
        invariant
            i <= functions.len(),
            fs == functions_view(functions@),
            known0 == base.map_values(|o: (Seq<char>, Seq<char>)| o.0),
            opaques_view(opaque_types@) == base + opaque_additions(known0, all_types(fs.take(i as int))),
            strs(known@) == known0 + opaque_additions(known0, all_types(fs.take(i as int))).map_values(
                |o: (Seq<char>, Seq<char>)| o.0,
            ),
        decreases functions.len() - i,
    {
        let f = &functions[i];
        let ghost prefix = all_types(fs.take(i as int));
        let ghost ft = fn_types(f@);
        assert(fs.take(i + 1).drop_last() =~= fs.take(i as int));
        assert(fs.take(i + 1).last() == f@);
        assert(all_types(fs.take(i + 1)) == prefix + ft);
        assert(prefix + ft.take(0) =~= prefix);
        note_type(opaque_types, &mut known, &f.returns, Ghost(known0), Ghost(base), Ghost(prefix));
        assert(prefix.push(f.returns@) =~= prefix + ft.take(1));
        let mut j: usize = 0;
        while j < f.params.len()
            invariant
                j <= f.params.len(),
                ft == fn_types(f@),
                ft.len() == f.params.len() + 1,
                opaques_view(opaque_types@) == base + opaque_additions(known0, prefix + ft.take(j + 1)),
                strs(known@) == known0 + opaque_additions(known0, prefix + ft.take(j + 1)).map_values(
                    |o: (Seq<char>, Seq<char>)| o.0,
                ),
            decreases f.params.len() - j,
        {
            assert(ft[j + 1] == f.params@[j as int].ty@);
            note_type(
                opaque_types,
                &mut known,
                &f.params[j].ty,
                Ghost(known0),
                Ghost(base),
                Ghost(prefix + ft.take(j + 1)),
            );
            assert((prefix + ft.take(j + 1)).push(f.params@[j as int].ty@) =~= prefix + ft.take(j + 2));
            j = j + 1;
        }
        assert(ft.take(j + 1) =~= ft);
        i = i + 1;
    }
    assert(fs.take(i as int) =~= fs);
}

// ---------------------------------------------------------------------------
// Model handle names and preferred aliases
// ---------------------------------------------------------------------------

/// `{flattened name}Handle`
pub open spec fn model_handle_name(base: Seq<char>) -> Seq<char> {
    remove_all(base, "::"@) + "Handle"@
}

pub fn stable_model_handle_name(base_cpp_type: &str) -> (r: String)
    ensures
        r@ == model_handle_name(base_cpp_type@),
{
    let mut out = flatten_qualified_cpp_name(base_cpp_type);
    push_str(&mut out, "Handle");
    out
}

/// The handle of a class: named after its preferred alias when it has one.
pub open spec fn class_handle_name(q: Seq<char>, aliases: Seq<(Seq<char>, Seq<char>)>) -> Seq<char> {
    match alias_lookup(aliases, q) {
        Some(a) => model_handle_name(a),
        None => model_handle_name(q),
    }
}

pub fn stable_class_handle_name(qualified_cpp_type: &str, aliases: &Vec<ModelAlias>) -> (r: String)
    ensures
        r@ == class_handle_name(qualified_cpp_type@, alias_pairs(aliases@)),
{
    let q = chars_of(qualified_cpp_type);
    match lookup_alias(aliases, q.as_slice()) {
        Some(a) => stable_model_handle_name(a.as_str()),
        None => stable_model_handle_name(qualified_cpp_type),
    }
}

/// Of two spellings of one type, the one without a leading `_`, the written one first.
pub open spec fn preferred_base(d: Seq<char>, c: Seq<char>) -> Seq<char> {
    if !starts_with(d, "_"@) {
        d
    } else if !starts_with(c, "_"@) {
        c
    } else {
        d
    }
}

pub fn preferred_model_base_name(display_base: &str, canonical_base: &str) -> (r: String)
    ensures
        r@ == preferred_base(display_base@, canonical_base@),
{
    let d = chars_of(display_base);
    let c = chars_of(canonical_base);
    if !starts_with_lit(d.as_slice(), "_") {
        String::from_str(display_base)
    } else if !starts_with_lit(c.as_slice(), "_") {
        String::from_str(canonical_base)
    } else {
        String::from_str(display_base)
    }
}

pub proof fn lemma_unconst_len(v: Seq<char>)
    ensures
        unconst(v).len() <= v.len(),
{
    crate::types::lemma_trim_len(v);
    crate::types::lemma_trim_len(trim_start_matches(trim(v), "const "@));
    lemma_trim_start_matches_len(trim(v), "const "@);
}

pub proof fn lemma_trim_start_matches_len(s: Seq<char>, p: Seq<char>)
    ensures
        trim_start_matches(s, p).len() <= s.len(),
    decreases s.len(),
{
    if p.len() > 0 && starts_with(s, p) {
        lemma_trim_start_matches_len(s.skip(p.len() as int), p);
    }
}

pub proof fn lemma_parse_array_shorter(v: Seq<char>)
    ensures
        parse_array(v) matches Some((e, _)) ==> e.len() < v.len(),
{
    lemma_unconst_len(v);
    let t = unconst(v);
    crate::text::lemma_rfind_bounds(t, seq!['[']);
    if let Some(b) = crate::text::rfind(t, seq!['[']) {
        crate::types::lemma_trim_len(t.take(b));
    }
}

/// The model type a spelling names, for alias purposes: arrays by their element, and
/// nothing for `void`, templates, `std::` types, tagged structs, bracketed spellings and
/// primitives.
pub open spec fn alias_base(v: Seq<char>) -> Option<Seq<char>>
    decreases v.len(),
{
    let t = unconst(v);
    match parse_array(t) {
        Some((elem, _)) => {
            proof {
                lemma_unconst_len(v);
                lemma_parse_array_shorter(t);
            }
            alias_base(elem)
        },
        None => {
            let b = base_model(t);
            if b.len() == 0 || b == "void"@ || b.contains('<') || starts_with(b, "std::"@)
                || starts_with(b, "struct "@) || b.contains('[') || b.contains(']') || b.contains(
                '(',
            ) || b.contains(')') || is_primitive_name(b) {
                None
            } else {
                Some(b)
            }
        },
    }
}

fn alias_base_vec(v: &[char]) -> (r: Option<Vec<char>>)
    ensures
        match alias_base(v@) {
            Some(b) => r is Some && r->0@ == b,
            None => r is None,
        },
    decreases v@.len(),
{
    let a = trim_vec(v);
    let b0 = crate::text::trim_start_matches_lit(a.as_slice(), "const ");
    let t = trim_vec(b0.as_slice());
    proof {
        lemma_unconst_len(v@);
        lemma_parse_array_shorter(t@);
    }
    match parse_array_vec(t.as_slice()) {
        Some((elem, _)) => alias_base_vec(elem.as_slice()),
        None => {
            let b = base_model_vec(t.as_slice());
            let bs = b.as_slice();
            if b.len() == 0 || eq_lit(bs, "void") || contains_char(bs, '<') || starts_with_lit(
                bs,
                "std::",
            ) || starts_with_lit(bs, "struct ") || contains_char(bs, '[') || contains_char(bs, ']')
                || contains_char(bs, '(') || contains_char(bs, ')') || is_supported_primitive(bs) {
                None
            } else {
                Some(b)
            }
        },
    }
}

pub fn model_alias_base_type(value: &str) -> (r: Option<String>)
    ensures
        opt_view(r) == alias_base(value@),
{
    let v = chars_of(value);
    match alias_base_vec(v.as_slice()) {
        Some(b) => Some(string_of(b.as_slice())),
        None => None,
    }
}

/// The alias table after seeing the spelling `d` with canonical spelling `c`: when both
/// name model types, differ, and the preferred name is not the canonical one, the
/// canonical type gains that alias unless it has one already.
pub open spec fn alias_step(
    pairs: Seq<(Seq<char>, Seq<char>)>,
    d: Seq<char>,
    c: Seq<char>,
) -> Seq<(Seq<char>, Seq<char>)> {
    match (alias_base(d), alias_base(c)) {
        (Some(db), Some(cb)) => {
            let p = preferred_base(db, cb);
            if db == cb || p == cb || alias_lookup(pairs, cb) is Some {
                pairs
            } else {
                pairs.push((cb, p))
            }
        },
        _ => pairs,
    }
}

pub fn record_preferred_model_alias(
    aliases: &mut Vec<ModelAlias>,
    display_type: &str,
    canonical_type: &str,
)
    ensures
        alias_pairs(final(aliases)@) == alias_step(
            alias_pairs(old(aliases)@),
            display_type@,
            canonical_type@,
        ),
{
    let db = match model_alias_base_type(display_type) {
        Some(b) => b,
        None => return,
    };
    let cb = match model_alias_base_type(canonical_type) {
        Some(b) => b,
        None => return,
    };
    if crate::text::str_eq(db.as_str(), cb.as_str()) {
        return;
    }
    let preferred = preferred_model_base_name(db.as_str(), cb.as_str());
    if crate::text::str_eq(preferred.as_str(), cb.as_str()) {
        return;
    }
    let cv = chars_of(cb.as_str());
    if lookup_alias(aliases, cv.as_slice()).is_some() {
        return;
    }
    let ghost before = aliases@;
    aliases.push(ModelAlias { cpp_type: cb, alias: preferred });
    assert(alias_pairs(aliases@) =~= alias_pairs(before).push((cb@, preferred@)));
}

} // verus!
