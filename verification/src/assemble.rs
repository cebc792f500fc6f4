//! Assembly of the IR module from a parsed API.
use vstd::prelude::*;

use crate::config::{Config, WRAPPER_PREFIX};
use crate::context::{alias_lookup, alias_pairs, aliases_keyed_once, ModelAlias, PipelineContext};
use crate::declarations::{
    apply_outcomes, default_argument_param_variants, emitted_view, env_of, lemma_apply_err_extends,
    lemma_cparams_prefix, norm_function, norm_record, normalize_function, normalize_params_into,
    normalize_record, nparams, ntype, outcome_matches, pairs_view, param_signature, sig,
    sigs_view, skipped_view, state_of, variant_lens, variant_pairs, EmittedKey, EmittedSig,
    NormState, Outcome, TypeEnv, VariantSource,
};
use crate::ir::{
    opt_view, params_view, records_view, strs, IrCallback, IrEnum, IrEnumVariant, IrMacroConstant,
    IrParam, IrParamV, IrRecord, IrRecordV, IrTypeV,
};
use crate::kind::RecordKind;
use crate::naming::{cpp_qualified, flatten_cpp_name, flattened, qualified};
use crate::normalize::{
    alias_step, class_handle_name, normalize_type_with_canonical, record_preferred_model_alias,
    stable_class_handle_name,
};
use crate::parsed::{
    cparams, CppCallbackTypedef, CppCallbackTypedefV, CppEnum, CppFunction, CppFunctionV,
    CppMacroConstant, CppMethodV, CppParam, CppParamV, CppRecord, CppRecordV, ParsedApi,
};
use crate::text::{chars_of, push_str, push_string, seq_eq};

verus! {

// ---------------------------------------------------------------------------
// Type spellings seen in the API, and the aliases they imply
// ---------------------------------------------------------------------------

pub type TypePair = (Seq<char>, Seq<char>);

pub open spec fn param_pairs(ps: Seq<CppParamV>) -> Seq<TypePair> {
    ps.map_values(|p: CppParamV| (p.ty, p.canonical_ty))
}

pub open spec fn ctor_pairs(cs: Seq<Seq<CppParamV>>) -> Seq<TypePair>
    decreases cs.len(),
{
    if cs.len() == 0 {
        seq![]
    } else {
        ctor_pairs(cs.drop_last()) + param_pairs(cs.last())
    }
}

pub open spec fn method_pairs(ms: Seq<CppMethodV>) -> Seq<TypePair>
    decreases ms.len(),
{
    if ms.len() == 0 {
        seq![]
    } else {
        method_pairs(ms.drop_last()) + seq![(ms.last().return_type, ms.last().return_canonical_type)]
            + param_pairs(ms.last().params)
    }
}

/// Field types, then constructor parameters, then method returns and parameters.
pub open spec fn record_pairs(r: CppRecordV) -> Seq<TypePair> {
    r.fields.map_values(|f: crate::parsed::CppFieldV| (f.ty, f.canonical_ty)) + ctor_pairs(
        r.constructors,
    ) + method_pairs(r.methods)
}

pub open spec fn records_pairs(rs: Seq<CppRecordV>) -> Seq<TypePair>
    decreases rs.len(),
{
    if rs.len() == 0 {
        seq![]
    } else {
        records_pairs(rs.drop_last()) + record_pairs(rs.last())
    }
}

pub open spec fn functions_pairs(fs: Seq<CppFunctionV>) -> Seq<TypePair>
    decreases fs.len(),
{
    if fs.len() == 0 {
        seq![]
    } else {
        functions_pairs(fs.drop_last()) + seq![(fs.last().return_type, fs.last().return_canonical_type)]
            + param_pairs(fs.last().params)
    }
}

pub open spec fn callbacks_pairs(cs: Seq<CppCallbackTypedefV>) -> Seq<TypePair>
    decreases cs.len(),
{
    if cs.len() == 0 {
        seq![]
    } else {
        callbacks_pairs(cs.drop_last()) + seq![(cs.last().return_type, cs.last().return_canonical_type)]
            + param_pairs(cs.last().params)
    }
}

pub open spec fn api_records(api: ParsedApi) -> Seq<CppRecordV> {
    api.records@.map_values(|r: CppRecord| r@)
}

pub open spec fn api_functions(api: ParsedApi) -> Seq<CppFunctionV> {
    api.functions@.map_values(|f: CppFunction| f@)
}

pub open spec fn api_callbacks(api: ParsedApi) -> Seq<CppCallbackTypedefV> {
    api.callbacks@.map_values(|c: CppCallbackTypedef| c@)
}

/// Every written/canonical type pair of the API, records first, then functions, then
/// callbacks.
pub open spec fn api_pairs(api: ParsedApi) -> Seq<TypePair> {
    records_pairs(api_records(api)) + functions_pairs(api_functions(api)) + callbacks_pairs(
        api_callbacks(api),
    )
}

/// The alias table after seeing `pairs` in order.
pub open spec fn aliases_after(a: Seq<TypePair>, pairs: Seq<TypePair>) -> Seq<TypePair>
    decreases pairs.len(),
{
    if pairs.len() == 0 {
        a
    } else {
        alias_step(aliases_after(a, pairs.drop_last()), pairs.last().0, pairs.last().1)
    }
}

fn note_params(aliases: &mut Vec<ModelAlias>, params: &Vec<CppParam>, Ghost(done): Ghost<Seq<TypePair>>)
    requires
        alias_pairs(old(aliases)@) == aliases_after(seq![], done),
    ensures
        alias_pairs(final(aliases)@) == aliases_after(seq![], done + param_pairs(cparams(params@))),
{
    let ghost pp = param_pairs(cparams(params@));
    let mut i: usize = 0;
    assert(done + pp.take(0) =~= done);
    while i < params.len()
        invariant
            i <= params.len(),
            pp == param_pairs(cparams(params@)),
            alias_pairs(aliases@) == aliases_after(seq![], done + pp.take(i as int)),
        decreases params.len() - i,
    {
        record_preferred_model_alias(aliases, params[i].ty.as_str(), params[i].canonical_ty.as_str());
        assert((done + pp.take(i + 1)).drop_last() =~= done + pp.take(i as int));
        assert((done + pp.take(i + 1)).last() == (params@[i as int].ty@, params@[i as int].canonical_ty@));
        i = i + 1;
    }
    assert(pp.take(i as int) =~= pp);
}

fn note_pair(aliases: &mut Vec<ModelAlias>, d: &String, c: &String, Ghost(done): Ghost<Seq<TypePair>>)
    requires
        alias_pairs(old(aliases)@) == aliases_after(seq![], done),
    ensures
        alias_pairs(final(aliases)@) == aliases_after(seq![], done + seq![(d@, c@)]),
{
    record_preferred_model_alias(aliases, d.as_str(), c.as_str());
    assert((done + seq![(d@, c@)]).drop_last() =~= done);
}

fn note_record(aliases: &mut Vec<ModelAlias>, record: &CppRecord, Ghost(done): Ghost<Seq<TypePair>>)
    requires
        alias_pairs(old(aliases)@) == aliases_after(seq![], done),
    ensures
        alias_pairs(final(aliases)@) == aliases_after(seq![], done + record_pairs(record@)),
{
    let ghost fp = record@.fields.map_values(|f: crate::parsed::CppFieldV| (f.ty, f.canonical_ty));
    let mut i: usize = 0;
    assert(done + fp.take(0) =~= done);
    while i < record.fields.len()
        invariant
            i <= record.fields.len(),
            fp == record@.fields.map_values(|f: crate::parsed::CppFieldV| (f.ty, f.canonical_ty)),
            alias_pairs(aliases@) == aliases_after(seq![], done + fp.take(i as int)),
        decreases record.fields.len() - i,
    {
        note_pair(aliases, &record.fields[i].ty, &record.fields[i].canonical_ty, Ghost(done + fp.take(i as int)));
        assert(done + fp.take(i as int) + seq![fp[i as int]] =~= done + fp.take(i + 1));
        i = i + 1;
    }
    assert(fp.take(i as int) =~= fp);
    let ghost d1 = done + fp;
    let ghost cs = record@.constructors;
    let mut i: usize = 0;
    assert(d1 + ctor_pairs(cs.take(0)) =~= d1);
    while i < record.constructors.len()
        invariant
            i <= record.constructors.len(),
            cs == record@.constructors,
            alias_pairs(aliases@) == aliases_after(seq![], d1 + ctor_pairs(cs.take(i as int))),
        decreases record.constructors.len() - i,
    {
        note_params(aliases, &record.constructors[i].params, Ghost(d1 + ctor_pairs(cs.take(i as int))));
        assert(cs.take(i + 1).drop_last() =~= cs.take(i as int));
        assert(d1 + ctor_pairs(cs.take(i as int)) + param_pairs(cs[i as int]) =~= d1 + ctor_pairs(
            cs.take(i + 1),
        ));
        i = i + 1;
    }
    assert(cs.take(i as int) =~= cs);
    let ghost d2 = d1 + ctor_pairs(cs);
    let ghost ms = record@.methods;
    let mut i: usize = 0;
    assert(d2 + method_pairs(ms.take(0)) =~= d2);
    while i < record.methods.len()
        invariant
            i <= record.methods.len(),
            ms == record@.methods,
            alias_pairs(aliases@) == aliases_after(seq![], d2 + method_pairs(ms.take(i as int))),
        decreases record.methods.len() - i,
    {
        let m = &record.methods[i];
        let ghost d = d2 + method_pairs(ms.take(i as int));
        note_pair(aliases, &m.return_type, &m.return_canonical_type, Ghost(d));
        note_params(aliases, &m.params, Ghost(d + seq![(m.return_type@, m.return_canonical_type@)]));
        assert(ms.take(i + 1).drop_last() =~= ms.take(i as int));
        assert(ms[i as int] == m@);
        assert(d + seq![(m.return_type@, m.return_canonical_type@)] + param_pairs(cparams(m.params@))
            =~= d2 + method_pairs(ms.take(i + 1)));
        i = i + 1;
    }
    assert(ms.take(i as int) =~= ms);
    assert(d2 + method_pairs(ms) =~= done + record_pairs(record@));
}

proof fn lemma_lookup_none(v: Seq<TypePair>, key: Seq<char>)
    requires
        alias_lookup(v, key) is None,
    ensures
        forall|i: int| 0 <= i < v.len() ==> #[trigger] v[i].0 != key,
    decreases v.len(),
{
    if v.len() > 0 {
        lemma_lookup_none(v.drop_first(), key);
        assert forall|i: int| 0 <= i < v.len() implies #[trigger] v[i].0 != key by {
            if i > 0 {
                assert(v[i] == v.drop_first()[i - 1]);
            }
        }
    }
}

/// Seeing more type pairs never gives a class a second alias entry.
pub proof fn lemma_aliases_keyed_once(a: Seq<TypePair>, pairs: Seq<TypePair>)
    requires
        aliases_keyed_once(a),
    ensures
        aliases_keyed_once(aliases_after(a, pairs)),
    decreases pairs.len(),
{
    if pairs.len() > 0 {
        lemma_aliases_keyed_once(a, pairs.drop_last());
        let prev = aliases_after(a, pairs.drop_last());
        match (crate::normalize::alias_base(pairs.last().0), crate::normalize::alias_base(pairs.last().1)) {
            (Some(db), Some(cb)) => {
                if alias_lookup(prev, cb) is None {
                    lemma_lookup_none(prev, cb);
                }
            },
            _ => {},
        }
    }
}

/// The preferred public alias of each model class seen under a second spelling; each
/// class appears at most once.
pub fn collect_preferred_model_aliases(api: &ParsedApi) -> (r: Vec<ModelAlias>)
    ensures
        alias_pairs(r@) == aliases_after(seq![], api_pairs(*api)),
        aliases_keyed_once(alias_pairs(r@)),
{
    proof {
        lemma_aliases_keyed_once(seq![], api_pairs(*api));
    }
    let mut aliases: Vec<ModelAlias> = Vec::new();
    assert(alias_pairs(aliases@) =~= Seq::<TypePair>::empty());
    let ghost rs = api_records(*api);
    let mut i: usize = 0;
    assert(records_pairs(rs.take(0)) =~= Seq::<TypePair>::empty());
    while i < api.records.len()
        invariant
            i <= api.records.len(),
            rs == api_records(*api),
            alias_pairs(aliases@) == aliases_after(seq![], records_pairs(rs.take(i as int))),
        decreases api.records.len() - i,
    {
        note_record(&mut aliases, &api.records[i], Ghost(records_pairs(rs.take(i as int))));
        assert(rs.take(i + 1).drop_last() =~= rs.take(i as int));
        assert(rs[i as int] == api.records@[i as int]@);
        i = i + 1;
    }
    assert(rs.take(i as int) =~= rs);
    let ghost d1 = records_pairs(rs);
    let ghost fs = api_functions(*api);
    let mut i: usize = 0;
    assert(d1 + functions_pairs(fs.take(0)) =~= d1);
    while i < api.functions.len()
        invariant
            i <= api.functions.len(),
            fs == api_functions(*api),
            alias_pairs(aliases@) == aliases_after(seq![], d1 + functions_pairs(fs.take(i as int))),
        decreases api.functions.len() - i,
    {
        let f = &api.functions[i];
        let ghost d = d1 + functions_pairs(fs.take(i as int));
        note_pair(&mut aliases, &f.return_type, &f.return_canonical_type, Ghost(d));
        note_params(&mut aliases, &f.params, Ghost(d + seq![(f.return_type@, f.return_canonical_type@)]));
        assert(fs.take(i + 1).drop_last() =~= fs.take(i as int));
        assert(fs[i as int] == f@);
        assert(d + seq![(f.return_type@, f.return_canonical_type@)] + param_pairs(cparams(f.params@))
            =~= d1 + functions_pairs(fs.take(i + 1)));
        i = i + 1;
    }
    assert(fs.take(i as int) =~= fs);
    let ghost d2 = d1 + functions_pairs(fs);
    let ghost cs = api_callbacks(*api);
    let mut i: usize = 0;
    assert(d2 + callbacks_pairs(cs.take(0)) =~= d2);
    while i < api.callbacks.len()
        invariant
            i <= api.callbacks.len(),
            cs == api_callbacks(*api),
            alias_pairs(aliases@) == aliases_after(seq![], d2 + callbacks_pairs(cs.take(i as int))),
        decreases api.callbacks.len() - i,
    {
        let c = &api.callbacks[i];
        let ghost d = d2 + callbacks_pairs(cs.take(i as int));
        note_pair(&mut aliases, &c.return_type, &c.return_canonical_type, Ghost(d));
        note_params(&mut aliases, &c.params, Ghost(d + seq![(c.return_type@, c.return_canonical_type@)]));
        assert(cs.take(i + 1).drop_last() =~= cs.take(i as int));
        assert(cs[i as int] == c@);
        assert(d + seq![(c.return_type@, c.return_canonical_type@)] + param_pairs(cparams(c.params@))
            =~= d2 + callbacks_pairs(cs.take(i + 1)));
        i = i + 1;
    }
    assert(cs.take(i as int) =~= cs);
    aliases
}


// ---------------------------------------------------------------------------
// Names collected from the API
// ---------------------------------------------------------------------------

/// Each callback typedef by its name and by its qualified name.
pub open spec fn callback_names(cs: Seq<CppCallbackTypedefV>) -> Seq<Seq<char>>
    decreases cs.len(),
{
    if cs.len() == 0 {
        seq![]
    } else {
        callback_names(cs.drop_last()) + seq![cs.last().name, qualified(cs.last().namespace, cs.last().name)]
    }
}

pub fn callback_name_set(api: &ParsedApi) -> (r: Vec<String>)
    ensures
        strs(r@) == callback_names(api_callbacks(*api)),
{
    let ghost cs = api_callbacks(*api);
    let mut out: Vec<String> = Vec::new();
    let mut i: usize = 0;
    assert(strs(out@) =~= callback_names(cs.take(0)));
    while i < api.callbacks.len()
        invariant
            i <= api.callbacks.len(),
            cs == api_callbacks(*api),
            strs(out@) == callback_names(cs.take(i as int)),
        decreases api.callbacks.len() - i,
    {
        let c = &api.callbacks[i];
        let ghost before = strs(out@);
        let n = c.name.clone();
        let q = cpp_qualified(c.namespace.as_slice(), c.name.as_str());
        out.push(n);
        out.push(q);
        assert(cs.take(i + 1).drop_last() =~= cs.take(i as int));
        assert(cs[i as int] == c@);
        assert(strs(out@) =~= before + seq![n@, q@]);
        i = i + 1;
    }
    assert(cs.take(i as int) =~= cs);
    out
}

pub open spec fn named_enums(es: Seq<CppEnum>) -> Seq<Seq<char>>
    decreases es.len(),
{
    if es.len() == 0 {
        seq![]
    } else if es.last().is_anonymous {
        named_enums(es.drop_last())
    } else {
        named_enums(es.drop_last()).push(qualified(strs(es.last().namespace@), es.last().name@))
    }
}

/// The qualified names of the named enums.
pub fn collect_known_enum_types(api: &ParsedApi) -> (r: Vec<String>)
    ensures
        strs(r@) == named_enums(api.enums@),
{
    let mut out: Vec<String> = Vec::new();
    let mut i: usize = 0;
    assert(strs(out@) =~= named_enums(api.enums@.take(0)));
    while i < api.enums.len()
        invariant
            i <= api.enums.len(),
            strs(out@) == named_enums(api.enums@.take(i as int)),
        decreases api.enums.len() - i,
    {
        let e = &api.enums[i];
        assert(api.enums@.take(i + 1).drop_last() =~= api.enums@.take(i as int));
        if !e.is_anonymous {
            let q = cpp_qualified(e.namespace.as_slice(), e.name.as_str());
            let ghost before = strs(out@);
            out.push(q);
            assert(strs(out@) =~= before.push(q@));
        }
        i = i + 1;
    }
    assert(api.enums@.take(i as int) =~= api.enums@);
    out
}

pub open spec fn abstract_names(rs: Seq<CppRecordV>) -> Seq<Seq<char>>
    decreases rs.len(),
{
    if rs.len() == 0 {
        seq![]
    } else if rs.last().is_abstract {
        abstract_names(rs.drop_last()).push(qualified(rs.last().namespace, rs.last().name))
    } else {
        abstract_names(rs.drop_last())
    }
}

/// The qualified names of the abstract classes.
pub fn collect_abstract_types(api: &ParsedApi) -> (r: Vec<String>)
    ensures
        strs(r@) == abstract_names(api_records(*api)),
{
    let ghost rs = api_records(*api);
    let mut out: Vec<String> = Vec::new();
    let mut i: usize = 0;
    assert(strs(out@) =~= abstract_names(rs.take(0)));
    while i < api.records.len()
        invariant
            i <= api.records.len(),
            rs == api_records(*api),
            strs(out@) == abstract_names(rs.take(i as int)),
        decreases api.records.len() - i,
    {
        let r = &api.records[i];
        assert(rs.take(i + 1).drop_last() =~= rs.take(i as int));
        assert(rs[i as int] == r@);
        if r.is_abstract {
            let q = cpp_qualified(r.namespace.as_slice(), r.name.as_str());
            let ghost before = strs(out@);
            out.push(q);
            assert(strs(out@) =~= before.push(q@));
        }
        i = i + 1;
    }
    assert(rs.take(i as int) =~= rs);
    out
}

/// The IR record of each parsed record, with its stable handle name.
pub open spec fn ir_records(rs: Seq<CppRecordV>, aliases: Seq<TypePair>) -> Seq<IrRecordV> {
    rs.map_values(
        |r: CppRecordV|
            IrRecordV {
                cpp_type: qualified(r.namespace, r.name),
                handle_name: class_handle_name(qualified(r.namespace, r.name), aliases),
                kind: r.kind,
            },
    )
}

pub fn collect_ir_records(api: &ParsedApi, preferred_model_aliases: &Vec<ModelAlias>) -> (r: Vec<
    IrRecord,
>)
    ensures
        records_view(r@) == ir_records(api_records(*api), alias_pairs(preferred_model_aliases@)),
{
    let ghost rs = api_records(*api);
    let ghost al = alias_pairs(preferred_model_aliases@);
    let mut out: Vec<IrRecord> = Vec::new();
    let mut i: usize = 0;
    while i < api.records.len()
        invariant
            i <= api.records.len(),
            rs == api_records(*api),
            al == alias_pairs(preferred_model_aliases@),
            records_view(out@) =~= ir_records(rs.take(i as int), al),
        decreases api.records.len() - i,
    {
        let r = &api.records[i];
        let q = cpp_qualified(r.namespace.as_slice(), r.name.as_str());
        let h = stable_class_handle_name(q.as_str(), preferred_model_aliases);
        let item = IrRecord { cpp_type: q, handle_name: h, kind: r.kind };
        let ghost before = out@;
        out.push(item);
        assert(rs[i as int] == r@);
        assert(rs.take(i + 1) =~= rs.take(i as int).push(rs[i as int]));
        assert(records_view(out@) =~= records_view(before).push(item@));
        i = i + 1;
    }
    assert(rs.take(i as int) =~= rs);
    out
}

/// The handle of the first IR record of type `q`, or empty.
pub open spec fn handle_of(recs: Seq<IrRecordV>, q: Seq<char>) -> Seq<char>
    decreases recs.len(),
{
    if recs.len() == 0 {
        Seq::empty()
    } else if recs[0].cpp_type == q {
        recs[0].handle_name
    } else {
        handle_of(recs.drop_first(), q)
    }
}

pub fn record_handle(records: &Vec<IrRecord>, q: &String) -> (r: String)
    ensures
        r@ == handle_of(records_view(records@), q@),
{
    let ghost rv = records_view(records@);
    let qv = chars_of(q.as_str());
    let mut i: usize = 0;
    assert(rv.skip(0) =~= rv);
    while i < records.len()
        invariant
            i <= records.len(),
            rv == records_view(records@),
            qv@ == q@,
            handle_of(rv, q@) == handle_of(rv.skip(i as int), q@),
        decreases records.len() - i,
    {
        assert(rv.skip(i as int).drop_first() =~= rv.skip(i + 1));
        let c = chars_of(records[i].cpp_type.as_str());
        if seq_eq(c.as_slice(), qv.as_slice()) {
            return records[i].handle_name.clone();
        }
        i = i + 1;
    }
    String::new()
}

pub open spec fn ir_enum(e: CppEnum) -> crate::ir::IrEnumV {
    crate::ir::IrEnumV {
        name: flattened(strs(e.namespace@), e.name@),
        cpp_name: qualified(strs(e.namespace@), e.name@),
        is_anonymous: e.is_anonymous,
        variants: e.variants@.map_values(
            |v: crate::parsed::CppEnumVariant| (v.name@, opt_view(v.value)),
        ),
    }
}

pub fn normalize_enum(item: &CppEnum) -> (r: IrEnum)
    ensures
        r@ == ir_enum(*item),
{
    let mut variants: Vec<IrEnumVariant> = Vec::new();
    let mut i: usize = 0;
    while i < item.variants.len()
        invariant
            i <= item.variants.len(),
            crate::ir::variants_view(variants@) =~= item.variants@.take(i as int).map_values(
                |v: crate::parsed::CppEnumVariant| (v.name@, opt_view(v.value)),
            ),
        decreases item.variants.len() - i,
    {
        let v = &item.variants[i];
        let x = IrEnumVariant { name: v.name.clone(), value: crate::ir::copy_opt(&v.value) };
        let ghost before = variants@;
        variants.push(x);
        assert(crate::ir::variants_view(variants@) =~= crate::ir::variants_view(before).push(
            (x.name@, opt_view(x.value)),
        ));
        assert(item.variants@.take(i + 1) =~= item.variants@.take(i as int).push(item.variants@[i as int]));
        i = i + 1;
    }
    assert(item.variants@.take(i as int) =~= item.variants@);
    IrEnum {
        name: flatten_cpp_name(item.namespace.as_slice(), item.name.as_str()),
        cpp_name: cpp_qualified(item.namespace.as_slice(), item.name.as_str()),
        is_anonymous: item.is_anonymous,
        variants,
    }
}

pub fn normalize_macro_constant(item: &CppMacroConstant) -> (r: IrMacroConstant)
    ensures
        r.name@ == item.name@,
        r.value@ == item.value@,
{
    IrMacroConstant { name: item.name.clone(), value: item.value.clone() }
}

pub open spec fn ir_callback(c: CppCallbackTypedefV, env: TypeEnv) -> Result<
    crate::ir::IrCallbackV,
    Seq<char>,
> {
    match ntype(c.return_type, c.return_canonical_type, env) {
        Err(e) => Err(e),
        Ok(t) => match nparams(c.params, env) {
            Err(e) => Err(e),
            Ok(ps) => Ok(
                crate::ir::IrCallbackV {
                    name: c.name,
                    cpp_name: qualified(c.namespace, c.name),
                    returns: t,
                    params: ps,
                },
            ),
        },
    }
}

pub fn normalize_callback(
    config: &Config,
    callback: &CppCallbackTypedef,
    callback_names: &Vec<String>,
    known_enum_types: &Vec<String>,
    known_records: &[IrRecord],
) -> (r: Result<IrCallback, String>)
    ensures
        match ir_callback(callback@, env_of(callback_names, known_enum_types, known_records)) {
            Ok(c) => r is Ok && r->Ok_0@ == c,
            Err(e) => r is Err && r->Err_0@ == e,
        },
{
    let ret_ty = match normalize_type_with_canonical(
        config,
        callback.return_type.as_str(),
        callback.return_canonical_type.as_str(),
        callback_names,
        known_enum_types,
        known_records,
    ) {
        Ok(t) => t,
        Err(e) => return Err(e),
    };
    let mut params: Vec<IrParam> = Vec::new();
    assert(cparams(callback.params@).take(callback.params.len() as int) =~= cparams(callback.params@));
    match normalize_params_into(
        config,
        callback.params.as_slice(),
        callback.params.len(),
        &mut params,
        callback_names,
        known_enum_types,
        known_records,
    ) {
        Ok(()) => {},
        Err(e) => return Err(e),
    }
    assert(params_view(params@) =~= Seq::<IrParamV>::empty() + params_view(params@));
    Ok(
        IrCallback {
            name: callback.name.clone(),
            cpp_name: cpp_qualified(callback.namespace.as_slice(), callback.name.as_str()),
            returns: ret_ty,
            params,
        },
    )
}


// ---------------------------------------------------------------------------
// Records and free functions
// ---------------------------------------------------------------------------

/// The records normalized in order, each with the handle of its IR record.
pub open spec fn records_phase(
    rs: Seq<CppRecordV>,
    recs: Seq<IrRecordV>,
    env: TypeEnv,
    sk0: Seq<(Seq<char>, Seq<char>)>,
) -> Result<NormState, Seq<char>>
    decreases rs.len(),
{
    if rs.len() == 0 {
        Ok(NormState { fns: seq![], skipped: sk0 })
    } else {
        match records_phase(rs.drop_last(), recs, env, sk0) {
            Err(e) => Err(e),
            Ok(s) => {
                let r = rs.last();
                match norm_record(r, handle_of(recs, qualified(r.namespace, r.name)), env, s.skipped) {
                    Err(e) => Err(e),
                    Ok(t) => Ok(NormState { fns: s.fns + t.fns, skipped: t.skipped }),
                }
            },
        }
    }
}

pub proof fn lemma_records_phase_err(
    rs: Seq<CppRecordV>,
    recs: Seq<IrRecordV>,
    env: TypeEnv,
    sk0: Seq<(Seq<char>, Seq<char>)>,
    k: int,
)
    requires
        0 <= k <= rs.len(),
        records_phase(rs.take(k), recs, env, sk0) is Err,
    ensures
        records_phase(rs, recs, env, sk0) == records_phase(rs.take(k), recs, env, sk0),
    decreases rs.len() - k,
{
    if k < rs.len() {
        assert(rs.take(k + 1).drop_last() =~= rs.take(k));
        lemma_records_phase_err(rs, recs, env, sk0, k + 1);
    } else {
        assert(rs.take(k) =~= rs);
    }
}

fn normalize_records(
    config: &Config,
    api: &ParsedApi,
    records: &Vec<IrRecord>,
    abstract_types: &Vec<String>,
    callback_names: &Vec<String>,
    known_enum_types: &Vec<String>,
    functions: &mut Vec<crate::ir::IrFunction>,
    skipped: &mut Vec<crate::ir::SkippedDeclaration>,
) -> (r: Result<(), String>)
    requires
        old(functions)@.len() == 0,
    ensures
        match records_phase(
            api_records(*api),
            records_view(records@),
            (TypeEnv {
                cbs: strs(callback_names@),
                enums: strs(known_enum_types@),
                recs: records_view(records@),
            }),
            skipped_view(old(skipped)@),
        ) {
            Ok(s) => r is Ok && state_of(final(functions)@, final(skipped)@) == s,
            Err(e) => r is Err && r->Err_0@ == e,
        },
{
    let ghost rs = api_records(*api);
    let ghost env = (TypeEnv {
                cbs: strs(callback_names@),
                enums: strs(known_enum_types@),
                recs: records_view(records@),
            });
    let ghost sk0 = skipped_view(skipped@);
    let mut i: usize = 0;
    assert(crate::ir::functions_view(functions@) =~= Seq::<crate::ir::IrFunctionV>::empty());
    while i < api.records.len()
        invariant
            i <= api.records.len(),
            rs == api_records(*api),
            env == (TypeEnv {
                cbs: strs(callback_names@),
                enums: strs(known_enum_types@),
                recs: records_view(records@),
            }),
            sk0 == skipped_view(old(skipped)@),
            records_phase(rs.take(i as int), records_view(records@), env, sk0) == Ok::<
                NormState,
                Seq<char>,
            >(state_of(functions@, skipped@)),
        decreases api.records.len() - i,
    {
        let r = &api.records[i];
        assert(rs.take(i + 1).drop_last() =~= rs.take(i as int));
        assert(rs[i as int] == r@);
        let q = cpp_qualified(r.namespace.as_slice(), r.name.as_str());
        let h = record_handle(records, &q);
        match normalize_record(
            config,
            r,
            h.as_str(),
            abstract_types,
            callback_names,
            known_enum_types,
            records.as_slice(),
            skipped,
        ) {
            Ok(fs) => {
                let ghost before = crate::ir::functions_view(functions@);
                let mut fs = fs;
                let ghost added = crate::ir::functions_view(fs@);
                functions.append(&mut fs);
                assert(crate::ir::functions_view(functions@) =~= before + added);
            },
            Err(e) => {
                proof {
                    lemma_records_phase_err(rs, records_view(records@), env, sk0, i + 1);
                }
                return Err(e);
            },
        }
        i = i + 1;
    }
    assert(rs.take(i as int) =~= rs);
    Ok(())
}

pub open spec fn fn_group_sigs(fs: Seq<CppFunctionV>, q: Seq<char>) -> Seq<Seq<Seq<char>>>
    decreases fs.len(),
{
    if fs.len() == 0 {
        seq![]
    } else {
        let prev = fn_group_sigs(fs.drop_last(), q);
        if qualified(fs.last().namespace, fs.last().name) == q {
            prev.push(sig(fs.last().params))
        } else {
            prev
        }
    }
}

pub open spec fn function_sources(fs: Seq<CppFunctionV>) -> Seq<VariantSource> {
    fs.map_values(
        |f: CppFunctionV|
            VariantSource {
                params: f.params,
                key: (qualified(f.namespace, f.name), false),
                existing: fn_group_sigs(fs, qualified(f.namespace, f.name)),
            },
    )
}

pub open spec fn function_outcomes(fs: Seq<CppFunctionV>, env: TypeEnv) -> Seq<(Seq<char>, Outcome)> {
    variant_pairs(function_sources(fs), seq![]).0.map_values(
        |p: (int, int)|
            (
                qualified(fs[p.0].namespace, fs[p.0].name),
                norm_function(
                    fs[p.0].namespace,
                    fs[p.0].name,
                    fs[p.0].return_type,
                    fs[p.0].return_canonical_type,
                    fs[p.0].return_is_function_pointer,
                    fs[p.0].params.take(p.1),
                    env,
                ),
            ),
    )
}

fn function_group_signatures(functions: &Vec<CppFunction>, q: &String) -> (r: Vec<Vec<String>>)
    ensures
        sigs_view(r@) == fn_group_sigs(functions@.map_values(|f: CppFunction| f@), q@),
{
    let ghost fs = functions@.map_values(|f: CppFunction| f@);
    let qv = chars_of(q.as_str());
    let mut r: Vec<Vec<String>> = Vec::new();
    let mut i: usize = 0;
    while i < functions.len()
        invariant
            i <= functions.len(),
            qv@ == q@,
            fs == functions@.map_values(|f: CppFunction| f@),
            sigs_view(r@) == fn_group_sigs(fs.take(i as int), q@),
        decreases functions.len() - i,
    {
        let f = &functions[i];
        assert(fs.take(i + 1).drop_last() =~= fs.take(i as int));
        assert(fs.take(i + 1).last() == f@);
        let fq = cpp_qualified(f.namespace.as_slice(), f.name.as_str());
        let fv = chars_of(fq.as_str());
        if seq_eq(fv.as_slice(), qv.as_slice()) {
            let sg = param_signature(f.params.as_slice(), f.params.len());
            assert(cparams(f.params@).take(f.params.len() as int) =~= cparams(f.params@));
            let ghost before = r@;
            r.push(sg);
            assert(sigs_view(r@) =~= sigs_view(before).push(strs(sg@)));
        }
        i = i + 1;
    }
    assert(fs.take(i as int) =~= fs);
    r
}

fn function_variant_pairs(api: &ParsedApi) -> (r: Vec<(usize, usize)>)
    ensures
        pairs_view(r@) == variant_pairs(function_sources(api_functions(*api)), seq![]).0,
        forall|j: int|
            0 <= j < r@.len() ==> r@[j].0 < api.functions@.len() && r@[j].1
                <= api.functions@[r@[j].0 as int].params@.len(),
{
    let ghost fs = api_functions(*api);
    let ghost srcs = function_sources(fs);
    let mut emitted: Vec<EmittedSig> = Vec::new();
    let mut pairs: Vec<(usize, usize)> = Vec::new();
    let mut i: usize = 0;
    assert(srcs.take(0) =~= Seq::<VariantSource>::empty());
    assert(pairs_view(pairs@) =~= Seq::<(int, int)>::empty());
    assert(emitted_view(emitted@) =~= Seq::<(EmittedKey, Seq<Seq<char>>)>::empty());
    while i < api.functions.len()
        invariant
            i <= api.functions.len(),
            fs == api_functions(*api),
            srcs == function_sources(fs),
            pairs_view(pairs@) == variant_pairs(srcs.take(i as int), seq![]).0,
            emitted_view(emitted@) == variant_pairs(srcs.take(i as int), seq![]).1,
            forall|j: int|
                0 <= j < pairs@.len() ==> pairs@[j].0 < i && pairs@[j].1
                    <= api.functions@[pairs@[j].0 as int].params@.len(),
        decreases api.functions.len() - i,
    {
        let f = &api.functions[i];
        assert(srcs.take(i + 1).drop_last() =~= srcs.take(i as int));
        assert(srcs.take(i + 1).last() == srcs[i as int]);
        assert(fs[i as int] == f@);
        let q = cpp_qualified(f.namespace.as_slice(), f.name.as_str());
        let existing = function_group_signatures(&api.functions, &q);
        let lens = default_argument_param_variants(
            f.params.as_slice(),
            &existing,
            q.as_str(),
            false,
            &mut emitted,
        );
        crate::declarations::push_pairs_pub(&mut pairs, i, &lens);
        i = i + 1;
    }
    assert(srcs.take(i as int) =~= srcs);
    pairs
}

fn apply_function_phase(
    config: &Config,
    api: &ParsedApi,
    pairs: &Vec<(usize, usize)>,
    abstract_types: &Vec<String>,
    callback_names: &Vec<String>,
    known_enum_types: &Vec<String>,
    known_records: &[IrRecord],
    functions: &mut Vec<crate::ir::IrFunction>,
    skipped: &mut Vec<crate::ir::SkippedDeclaration>,
) -> (r: Result<(), String>)
    requires
        pairs_view(pairs@) == variant_pairs(function_sources(api_functions(*api)), seq![]).0,
        forall|j: int|
            0 <= j < pairs@.len() ==> pairs@[j].0 < api.functions@.len() && pairs@[j].1
                <= api.functions@[pairs@[j].0 as int].params@.len(),
    ensures
        match apply_outcomes(
            state_of(old(functions)@, old(skipped)@),
            function_outcomes(
                api_functions(*api),
                env_of(callback_names, known_enum_types, known_records),
            ),
        ) {
            Ok(s) => r is Ok && state_of(final(functions)@, final(skipped)@) == s,
            Err(e) => r is Err && r->Err_0@ == e,
        },
{
    let ghost s0 = state_of(functions@, skipped@);
    let ghost outs = function_outcomes(
        api_functions(*api),
        env_of(callback_names, known_enum_types, known_records),
    );
    let mut k: usize = 0;
    assert(outs.take(0) =~= Seq::<(Seq<char>, Outcome)>::empty());
    while k < pairs.len()
        invariant
            k <= pairs.len(),
            pairs.len() == outs.len(),
            outs == function_outcomes(
                api_functions(*api),
                env_of(callback_names, known_enum_types, known_records),
            ),
            pairs_view(pairs@) == variant_pairs(function_sources(api_functions(*api)), seq![]).0,
            forall|j: int|
                0 <= j < pairs@.len() ==> pairs@[j].0 < api.functions@.len() && pairs@[j].1
                    <= api.functions@[pairs@[j].0 as int].params@.len(),
            apply_outcomes(s0, outs.take(k as int)) == Ok::<NormState, Seq<char>>(
                state_of(functions@, skipped@),
            ),
            s0 == state_of(old(functions)@, old(skipped)@),
        decreases pairs.len() - k,
    {
        let (fi, len) = pairs[k];
        proof {
            assert(outs.take(k + 1).drop_last() =~= outs.take(k as int));
            assert(pairs_view(pairs@)[k as int] == (fi as int, len as int));
        }
        let function = &api.functions[fi];
        let params = function.params.as_slice();
        let sub = vstd::slice::slice_subrange(params, 0, len);
        proof {
            lemma_cparams_prefix(params@, len as int);
        }
        let r = normalize_function(
            config,
            function,
            sub,
            abstract_types,
            callback_names,
            known_enum_types,
            known_records,
            skipped,
        );
        match r {
            Ok(Some(f)) => {
                let ghost before = functions@;
                functions.push(f);
                assert(crate::ir::functions_view(functions@) =~= crate::ir::functions_view(before).push(f@));
            },
            Ok(None) => {},
            Err(e) => {
                assert(outs[k as int].1 == Outcome::Fail(e@));
                assert(apply_outcomes(s0, outs.take(k + 1)) == Err::<NormState, Seq<char>>(e@));
                proof {
                    lemma_apply_err_extends(s0, outs, k + 1);
                }
                return Err(e);
            },
        }
        k = k + 1;
    }
    assert(outs.take(k as int) =~= outs);
    Ok(())
}


// ---------------------------------------------------------------------------
// Unique wrapper symbols
// ---------------------------------------------------------------------------

/// Methods and destructors bound to a class carry their receiver as first parameter.
pub open spec fn receivers_present(fs: Seq<crate::ir::IrFunctionV>) -> bool {
    forall|i: int|
        0 <= i < fs.len() ==> ((fs[i].method_of is Some && (fs[i].kind
            == crate::kind::IrFunctionKind::Method || fs[i].kind
            == crate::kind::IrFunctionKind::Destructor)) ==> fs[i].params.len() >= 1)
}

pub open spec fn fsuffix(f: crate::ir::IrFunctionV) -> Seq<char> {
    crate::naming::overload(f.kind, f.method_of is Some, f.is_const, f.params)
}

/// How many of `fs` are named `n`.
pub open spec fn name_count(fs: Seq<crate::ir::IrFunctionV>, n: Seq<char>) -> nat
    decreases fs.len(),
{
    if fs.len() == 0 {
        0
    } else {
        name_count(fs.drop_last(), n) + if fs.last().name == n {
            1nat
        } else {
            0nat
        }
    }
}

/// How many of `fs` are named `n` with overload suffix `sfx`.
pub open spec fn suffix_count(fs: Seq<crate::ir::IrFunctionV>, n: Seq<char>, sfx: Seq<char>) -> nat
    decreases fs.len(),
{
    if fs.len() == 0 {
        0
    } else {
        suffix_count(fs.drop_last(), n, sfx) + if fs.last().name == n && fsuffix(fs.last())
            == sfx {
            1nat
        } else {
            0nat
        }
    }
}

/// The symbol of function `i` after overload disambiguation: a symbol shared by several
/// functions gets `__` and the overload suffix, and a suffix repeated within the group
/// gets `_<occurrence>` from its second occurrence on.
pub open spec fn unique_name(fs: Seq<crate::ir::IrFunctionV>, i: int) -> Seq<char> {
    let n = fs[i].name;
    if name_count(fs, n) < 2 {
        n
    } else {
        let c = n + "__"@ + fsuffix(fs[i]);
        let occ = suffix_count(fs.take(i + 1), n, fsuffix(fs[i]));
        if occ == 1 {
            c
        } else {
            c + "_"@ + crate::text::decimal(occ)
        }
    }
}

fn count_named(functions: &Vec<crate::ir::IrFunction>, n: &[char], upto: usize) -> (r: usize)
    requires
        upto <= functions.len(),
    ensures
        r == name_count(crate::ir::functions_view(functions@).take(upto as int), n@),
{
    let ghost fs = crate::ir::functions_view(functions@);
    let mut c: usize = 0;
    let mut j: usize = 0;
    while j < upto
        invariant
            j <= upto <= functions.len(),
            fs == crate::ir::functions_view(functions@),
            c == name_count(fs.take(j as int), n@),
            c <= j,
        decreases upto - j,
    {
        assert(fs.take(j + 1).drop_last() =~= fs.take(j as int));
        let v = chars_of(functions[j].name.as_str());
        if seq_eq(v.as_slice(), n) {
            c = c + 1;
        }
        j = j + 1;
    }
    c
}

fn count_suffixed(
    functions: &Vec<crate::ir::IrFunction>,
    n: &[char],
    sfx: &[char],
    upto: usize,
) -> (r: usize)
    requires
        upto <= functions.len(),
        receivers_present(crate::ir::functions_view(functions@)),
    ensures
        r == suffix_count(crate::ir::functions_view(functions@).take(upto as int), n@, sfx@),
{
    let ghost fs = crate::ir::functions_view(functions@);
    let mut c: usize = 0;
    let mut j: usize = 0;
    while j < upto
        invariant
            j <= upto <= functions.len(),
            fs == crate::ir::functions_view(functions@),
            receivers_present(fs),
            c == suffix_count(fs.take(j as int), n@, sfx@),
            c <= j,
        decreases upto - j,
    {
        assert(fs.take(j + 1).drop_last() =~= fs.take(j as int));
        assert(fs[j as int] == functions@[j as int]@);
        let v = chars_of(functions[j].name.as_str());
        if seq_eq(v.as_slice(), n) {
            let s = crate::naming::overload_suffix(&functions[j]);
            let sv = chars_of(s.as_str());
            if seq_eq(sv.as_slice(), sfx) {
                c = c + 1;
            }
        }
        j = j + 1;
    }
    c
}

/// Disambiguates functions that share a wrapper symbol (see `unique_name`).
pub fn assign_unique_function_symbols(functions: &mut Vec<crate::ir::IrFunction>)
    requires
        receivers_present(crate::ir::functions_view(old(functions)@)),
    ensures
        final(functions)@.len() == old(functions)@.len(),
        forall|i: int|
            0 <= i < old(functions)@.len() ==> #[trigger] final(functions)@[i]@ == (
            crate::ir::IrFunctionV {
                name: unique_name(crate::ir::functions_view(old(functions)@), i),
                ..old(functions)@[i]@
            }),
{
    let ghost fs = crate::ir::functions_view(functions@);
    let mut names: Vec<String> = Vec::new();
    let mut i: usize = 0;
    while i < functions.len()
        invariant
            i <= functions.len(),
            fs == crate::ir::functions_view(functions@),
            receivers_present(fs),
            names@.len() == i,
            forall|k: int| 0 <= k < i ==> #[trigger] names@[k]@ == unique_name(fs, k),
        decreases functions.len() - i,
    {
        assert(fs[i as int] == functions@[i as int]@);
        let n = chars_of(functions[i].name.as_str());
        let total = count_named(functions, n.as_slice(), functions.len());
        assert(fs.take(functions.len() as int) =~= fs);
        let new_name = if total < 2 {
            functions[i].name.clone()
        } else {
            let sfx = crate::naming::overload_suffix(&functions[i]);
            let sv = chars_of(sfx.as_str());
            let occ = count_suffixed(functions, n.as_slice(), sv.as_slice(), i + 1);
            let mut c = functions[i].name.clone();
            push_str(&mut c, "__");
            push_string(&mut c, &sfx);
            if occ != 1 {
                push_str(&mut c, "_");
                let d = crate::text::decimal_string(occ);
                push_string(&mut c, &d);
            }
            c
        };
        names.push(new_name);
        i = i + 1;
    }
    let ghost old_fns = functions@;
    let mut k: usize = 0;
    while k < names.len()
        invariant
            k <= names.len() == functions.len() == old_fns.len(),
            fs == crate::ir::functions_view(old_fns),
            forall|j: int| 0 <= j < names@.len() ==> #[trigger] names@[j]@ == unique_name(fs, j),
            forall|j: int|
                0 <= j < k ==> #[trigger] functions@[j]@ == (crate::ir::IrFunctionV {
                    name: unique_name(fs, j),
                    ..old_fns[j]@
                }),
            forall|j: int| k <= j < functions@.len() ==> #[trigger] functions@[j] == old_fns[j],
        decreases names.len() - k,
    {
        let mut f = functions.remove(k);
        f.name = names[k].clone();
        functions.insert(k, f);
        k = k + 1;
    }
}

/// Whether all functions have distinct symbols.
pub open spec fn symbols_distinct(fs: Seq<crate::ir::IrFunctionV>) -> bool {
    forall|i: int, j: int| 0 <= i < j < fs.len() ==> fs[i].name != fs[j].name
}


/// String order: lexicographic by character (the byte order of their UTF-8 encodings).
pub open spec fn lex_lt(a: Seq<char>, b: Seq<char>) -> bool
    decreases a.len(),
{
    if a.len() == 0 {
        b.len() > 0
    } else if b.len() == 0 {
        false
    } else if a[0] != b[0] {
        a[0] < b[0]
    } else {
        lex_lt(a.drop_first(), b.drop_first())
    }
}

pub proof fn lemma_lex_trans(a: Seq<char>, b: Seq<char>, c: Seq<char>)
    requires
        lex_lt(a, b),
        lex_lt(b, c),
    ensures
        lex_lt(a, c),
    decreases a.len(),
{
    if a.len() > 0 && b.len() > 0 && c.len() > 0 && a[0] == b[0] && b[0] == c[0] {
        lemma_lex_trans(a.drop_first(), b.drop_first(), c.drop_first());
    }
}

pub proof fn lemma_lex_total(a: Seq<char>, b: Seq<char>)
    ensures
        a != b ==> lex_lt(a, b) || lex_lt(b, a),
        !(lex_lt(a, b) && lex_lt(b, a)),
        !lex_lt(a, a),
    decreases a.len(),
{
    if a.len() == 0 {
        if b.len() == 0 {
            assert(a =~= b);
        }
    } else if b.len() == 0 {
    } else if a[0] != b[0] {
    } else {
        lemma_lex_total(a.drop_first(), b.drop_first());
        if a != b {
            assert(a.drop_first() != b.drop_first()) by {
                if a.drop_first() == b.drop_first() {
                    assert(a =~= seq![a[0]] + a.drop_first());
                    assert(b =~= seq![b[0]] + b.drop_first());
                }
            }
        }
    }
    if a.len() > 0 {
        lemma_lex_total(a.drop_first(), a.drop_first());
    }
}

pub fn lex_less(a: &[char], b: &[char]) -> (r: bool)
    ensures
        r == lex_lt(a@, b@),
{
    let mut i: usize = 0;
    assert(a@.skip(0) =~= a@);
    assert(b@.skip(0) =~= b@);
    while i < a.len() && i < b.len() && a[i] == b[i]
        invariant
            i <= a.len(),
            i <= b.len(),
            lex_lt(a@, b@) == lex_lt(a@.skip(i as int), b@.skip(i as int)),
        decreases a.len() - i,
    {
        assert(a@.skip(i as int).drop_first() =~= a@.skip(i + 1));
        assert(b@.skip(i as int).drop_first() =~= b@.skip(i + 1));
        i = i + 1;
    }
    if i == a.len() {
        i < b.len()
    } else if i == b.len() {
        false
    } else {
        a[i] < b[i]
    }
}

pub open spec fn sorted_strict(s: Seq<Seq<char>>) -> bool {
    forall|i: int, j: int| 0 <= i < j < s.len() ==> lex_lt(s[i], s[j])
}

/// The C++ names of the functions with symbol `n`, in order.
pub open spec fn origins(fs: Seq<crate::ir::IrFunctionV>, n: Seq<char>) -> Seq<Seq<char>>
    decreases fs.len(),
{
    if fs.len() == 0 {
        seq![]
    } else if fs.last().name == n {
        origins(fs.drop_last(), n).push(fs.last().cpp_name)
    } else {
        origins(fs.drop_last(), n)
    }
}

pub open spec fn collision_entry(fs: Seq<crate::ir::IrFunctionV>, n: Seq<char>) -> Seq<char> {
    "wrapper symbol `"@ + n + "` collides for C++ declarations: "@ + crate::text::join(
        origins(fs, n),
        ", "@,
    )
}

pub open spec fn collision_message(fs: Seq<crate::ir::IrFunctionV>, syms: Seq<Seq<char>>) -> Seq<
    char,
> {
    "overload collision detected after suffix assignment: "@ + crate::text::join(
        syms.map_values(|n: Seq<char>| collision_entry(fs, n)),
        "; "@,
    )
}

/// The symbols that more than one function uses.
pub open spec fn duplicated(fs: Seq<crate::ir::IrFunctionV>) -> Set<Seq<char>> {
    Set::new(|n: Seq<char>| name_count(fs, n) >= 2)
}

pub proof fn lemma_name_count_pos(fs: Seq<crate::ir::IrFunctionV>, i: int)
    requires
        0 <= i < fs.len(),
    ensures
        name_count(fs, fs[i].name) >= 1,
    decreases fs.len(),
{
    if i < fs.len() - 1 {
        lemma_name_count_pos(fs.drop_last(), i);
    }
}

pub proof fn lemma_name_count_two(fs: Seq<crate::ir::IrFunctionV>, i: int, j: int)
    requires
        0 <= i < j < fs.len(),
        fs[i].name == fs[j].name,
    ensures
        name_count(fs, fs[i].name) >= 2,
    decreases fs.len(),
{
    if j < fs.len() - 1 {
        lemma_name_count_two(fs.drop_last(), i, j);
    } else {
        lemma_name_count_pos(fs.drop_last(), i);
    }
}

fn origins_of(functions: &Vec<crate::ir::IrFunction>, n: &[char]) -> (r: Vec<String>)
    ensures
        crate::text::views(r@) == origins(crate::ir::functions_view(functions@), n@),
{
    let ghost fs = crate::ir::functions_view(functions@);
    let mut r: Vec<String> = Vec::new();
    let mut j: usize = 0;
    while j < functions.len()
        invariant
            j <= functions.len(),
            fs == crate::ir::functions_view(functions@),
            crate::text::views(r@) == origins(fs.take(j as int), n@),
        decreases functions.len() - j,
    {
        assert(fs.take(j + 1).drop_last() =~= fs.take(j as int));
        let v = chars_of(functions[j].name.as_str());
        if seq_eq(v.as_slice(), n) {
            let c = functions[j].cpp_name.clone();
            let ghost before = r@;
            r.push(c);
            assert(crate::text::views(r@) =~= crate::text::views(before).push(c@));
        }
        j = j + 1;
    }
    assert(fs.take(j as int) =~= fs);
    r
}

/// Fails when two functions share a wrapper symbol, listing each shared symbol (in string
/// order) with the C++ declarations that collide on it.
/// The names that more than one of `functions` carries, each once, in string order.
pub fn duplicated_names(functions: &Vec<crate::ir::IrFunction>) -> (r: Vec<Vec<char>>)
    ensures
        sorted_strict(crate::case::vviews(r@)),
        crate::case::vviews(r@).to_set() == duplicated(crate::ir::functions_view(functions@)),
        r@.len() == 0 <==> symbols_distinct(crate::ir::functions_view(functions@)),
{
    let ghost fs = crate::ir::functions_view(functions@);
    let mut syms: Vec<Vec<char>> = Vec::new();
    let mut i: usize = 0;
    assert(fs.take(functions.len() as int) =~= fs);
    while i < functions.len()
        invariant
            i <= functions.len(),
            fs == crate::ir::functions_view(functions@),
            sorted_strict(crate::case::vviews(syms@)),
            forall|n: Seq<char>|
                #[trigger] crate::case::vviews(syms@).contains(n) <==> (name_count(fs, n) >= 2
                    && exists|k: int| 0 <= k < i && fs[k].name == n),
        decreases functions.len() - i,
    {
        let n = chars_of(functions[i].name.as_str());
        assert(fs[i as int].name == n@);
        let total = count_named(functions, n.as_slice(), functions.len());
        assert(fs.take(functions.len() as int) =~= fs);
        let ghost sv = crate::case::vviews(syms@);
        if total >= 2 {
            // find the insertion point
            let mut p: usize = 0;
            let mut present = false;
            let mut done = false;
            while p < syms.len() && !done
                invariant
                    p <= syms.len(),
                    sv == crate::case::vviews(syms@),
                    forall|k: int| 0 <= k < p ==> lex_lt(#[trigger] sv[k], n@),
                    present ==> done && p < sv.len() && sv[p as int] == n@,
                    done && !present ==> p < sv.len() && lex_lt(n@, sv[p as int]),
                decreases syms.len() - p + (if done { 0int } else { 1int }),
            {
                assert(sv[p as int] == syms@[p as int]@);
                if seq_eq(syms[p].as_slice(), n.as_slice()) {
                    present = true;
                    done = true;
                } else if lex_less(n.as_slice(), syms[p].as_slice()) {
                    done = true;
                } else {
                    proof {
                        lemma_lex_total(sv[p as int], n@);
                    }
                    p = p + 1;
                }
            }
            if !present {
                proof {
                    assert forall|k: int| p <= k < sv.len() implies lex_lt(n@, #[trigger] sv[k]) by {
                        if k > p {
                            lemma_lex_trans(n@, sv[p as int], sv[k]);
                        }
                    }
                    assert(!sv.contains(n@)) by {
                        if sv.contains(n@) {
                            let k = choose|k: int| 0 <= k < sv.len() && sv[k] == n@;
                            lemma_lex_total(n@, n@);
                        }
                    }
                }
                syms.insert(p, n);
                proof {
                    let nv = crate::case::vviews(syms@);
                    assert(nv =~= sv.insert(p as int, n@));
                    assert forall|a: int, b: int| 0 <= a < b < nv.len() implies lex_lt(nv[a], nv[b]) by {
                        if b < p {
                        } else if a < p && b == p {
                        } else if a < p && b > p {
                            lemma_lex_trans(sv[a], n@, sv[b - 1]);
                        } else if a == p {
                        } else {
                        }
                    }
                    assert forall|m: Seq<char>| #[trigger] nv.contains(m) <==> (name_count(fs, m) >= 2
                        && exists|k: int| 0 <= k < i + 1 && fs[k].name == m) by {
                        let old_side = sv.contains(m);
                        assert(old_side <==> (name_count(fs, m) >= 2 && exists|k: int|
                            0 <= k < i && fs[k].name == m));
                        if nv.contains(m) {
                            let t = choose|t: int| 0 <= t < nv.len() && nv[t] == m;
                            if t == p {
                                assert(m == n@);
                                assert(fs[i as int].name == m);
                            } else {
                                let t2 = if t < p { t } else { t - 1 };
                                assert(sv[t2] == m);
                                assert(old_side);
                                let k = choose|k: int| 0 <= k < i && fs[k].name == m;
                                assert(0 <= k < i + 1 && fs[k].name == m);
                            }
                        }
                        if name_count(fs, m) >= 2 && exists|k: int| 0 <= k < i + 1 && fs[k].name == m {
                            let k = choose|k: int| 0 <= k < i + 1 && fs[k].name == m;
                            if k == i {
                                assert(nv[p as int] == m);
                            } else {
                                assert(0 <= k < i && fs[k].name == m);
                                assert(old_side);
                                let t = choose|t: int| 0 <= t < sv.len() && sv[t] == m;
                                if t < p {
                                    assert(nv[t] == m);
                                } else {
                                    assert(nv[t + 1] == m);
                                }
                            }
                        }
                    }
                }
            } else {
                proof {
                    assert(sv[p as int] == n@);
                    assert(sv.contains(n@));
                    assert forall|m: Seq<char>| #[trigger] sv.contains(m) <==> (name_count(fs, m) >= 2
                        && exists|k: int| 0 <= k < i + 1 && fs[k].name == m) by {
                        let old_side = sv.contains(m);
                        assert(old_side <==> (name_count(fs, m) >= 2 && exists|k: int|
                            0 <= k < i && fs[k].name == m));
                        if old_side {
                            let k = choose|k: int| 0 <= k < i && fs[k].name == m;
                            assert(0 <= k < i + 1 && fs[k].name == m);
                        }
                        if name_count(fs, m) >= 2 && exists|k: int| 0 <= k < i + 1 && fs[k].name == m {
                            let k = choose|k: int| 0 <= k < i + 1 && fs[k].name == m;
                            if k == i {
                                assert(m == n@);
                            } else {
                                assert(0 <= k < i && fs[k].name == m);
                            }
                        }
                    }
                }
            }
        } else {
            proof {
                assert forall|m: Seq<char>| #[trigger] sv.contains(m) <==> (name_count(fs, m) >= 2
                    && exists|k: int| 0 <= k < i + 1 && fs[k].name == m) by {
                    let old_side = sv.contains(m);
                    assert(old_side <==> (name_count(fs, m) >= 2 && exists|k: int|
                        0 <= k < i && fs[k].name == m));
                    if old_side {
                        let k = choose|k: int| 0 <= k < i && fs[k].name == m;
                        assert(0 <= k < i + 1 && fs[k].name == m);
                    }
                    if name_count(fs, m) >= 2 && exists|k: int| 0 <= k < i + 1 && fs[k].name == m {
                        let k = choose|k: int| 0 <= k < i + 1 && fs[k].name == m;
                        if k == i {
                            assert(m == n@);
                            assert(false);
                        } else {
                            assert(0 <= k < i && fs[k].name == m);
                        }
                    }
                }
            }
        }
        i = i + 1;
    }
    let ghost sv = crate::case::vviews(syms@);
    proof {
        if syms.len() == 0 {
            assert forall|a: int, b: int| 0 <= a < b < fs.len() implies fs[a].name != fs[b].name by {
                if fs[a].name == fs[b].name {
                    lemma_name_count_two(fs, a, b);
                    assert(sv.contains(fs[a].name));
                }
            }
        } else {
            let m = sv[0];
            assert(sv.contains(m));
            assert(name_count(fs, m) >= 2);
            assert(!symbols_distinct(fs)) by {
                if symbols_distinct(fs) {
                    lemma_name_count_one(fs, m);
                }
            }
        }
        assert(sv.to_set() =~= duplicated(fs)) by {
            assert forall|m: Seq<char>| sv.to_set().contains(m) <==> duplicated(fs).contains(m) by {
                if name_count(fs, m) >= 2 {
                    lemma_name_count_witness(fs, m);
                }
            }
        }
    }
    syms
}

/// One line per shared name: `pre`, the name, `post`, then the C++ names that carry it.
pub open spec fn keyed_entry(
    fs: Seq<crate::ir::IrFunctionV>,
    n: Seq<char>,
    pre: Seq<char>,
    post: Seq<char>,
) -> Seq<char> {
    pre + n + post + crate::text::join(origins(fs, n), ", "@)
}

pub fn collision_entries(
    functions: &Vec<crate::ir::IrFunction>,
    syms: &Vec<Vec<char>>,
    pre: &str,
    post: &str,
) -> (r: Vec<String>)
    ensures
        crate::text::views(r@) == crate::case::vviews(syms@).map_values(
            |n: Seq<char>| keyed_entry(crate::ir::functions_view(functions@), n, pre@, post@),
        ),
{
    let ghost fs = crate::ir::functions_view(functions@);
    let ghost sv = crate::case::vviews(syms@);
    let mut entries: Vec<String> = Vec::new();
    let mut t: usize = 0;
    while t < syms.len()
        invariant
            t <= syms.len(),
            sv == crate::case::vviews(syms@),
            fs == crate::ir::functions_view(functions@),
            crate::text::views(entries@) =~= sv.take(t as int).map_values(
                |n: Seq<char>| keyed_entry(fs, n, pre@, post@),
            ),
        decreases syms.len() - t,
    {
        let mut e = String::from_str(pre);
        crate::text::push_chars(&mut e, syms[t].as_slice());
        push_str(&mut e, post);
        let os = origins_of(functions, syms[t].as_slice());
        let joined = crate::text::join_strings(&os, ", ");
        push_string(&mut e, &joined);
        let ghost before = entries@;
        entries.push(e);
        assert(crate::text::views(entries@) =~= crate::text::views(before).push(e@));
        assert(sv.take(t + 1) =~= sv.take(t as int).push(sv[t as int]));
        t = t + 1;
    }
    assert(sv.take(t as int) =~= sv);
    entries
}


pub fn ensure_unique_function_symbols(functions: &Vec<crate::ir::IrFunction>) -> (r: Result<
    (),
    String,
>)
    ensures
        symbols_distinct(crate::ir::functions_view(functions@)) <==> r is Ok,
        r is Err ==> exists|syms: Seq<Seq<char>>|
            sorted_strict(syms) && syms.to_set() == duplicated(crate::ir::functions_view(functions@))
                && r->Err_0@ == collision_message(crate::ir::functions_view(functions@), syms),
{
    let syms = duplicated_names(functions);
    if syms.len() == 0 {
        return Ok(());
    }
    let entries = collision_entries(
        functions,
        &syms,
        "wrapper symbol `",
        "` collides for C++ declarations: ",
    );
    let mut msg = String::from_str("overload collision detected after suffix assignment: ");
    let body = crate::text::join_strings(&entries, "; ");
    push_string(&mut msg, &body);
    proof {
        let fs = crate::ir::functions_view(functions@);
        let sv = crate::case::vviews(syms@);
        assert(sv.map_values(|n: Seq<char>| keyed_entry(fs, n, "wrapper symbol `"@, "` collides for C++ declarations: "@))
            =~= sv.map_values(|n: Seq<char>| collision_entry(fs, n)));
    }
    Err(msg)
}

pub proof fn lemma_name_count_one(fs: Seq<crate::ir::IrFunctionV>, n: Seq<char>)
    requires
        symbols_distinct(fs),
    ensures
        name_count(fs, n) <= 1,
    decreases fs.len(),
{
    if fs.len() > 0 {
        lemma_name_count_one(fs.drop_last(), n);
        if fs.last().name == n && name_count(fs.drop_last(), n) >= 1 {
            lemma_name_count_witness(fs.drop_last(), n);
            let k = choose|k: int| 0 <= k < fs.drop_last().len() && fs.drop_last()[k].name == n;
            assert(fs[k].name == fs[fs.len() - 1].name);
        }
    }
}

pub proof fn lemma_name_count_witness(fs: Seq<crate::ir::IrFunctionV>, n: Seq<char>)
    requires
        name_count(fs, n) >= 1,
    ensures
        exists|k: int| 0 <= k < fs.len() && fs[k].name == n,
    decreases fs.len(),
{
    if fs.last().name != n {
        lemma_name_count_witness(fs.drop_last(), n);
        let k = choose|k: int| 0 <= k < fs.drop_last().len() && fs.drop_last()[k].name == n;
        assert(fs[k].name == n);
    } else {
        assert(fs[fs.len() - 1].name == n);
    }
}


// ---------------------------------------------------------------------------
// Receivers: every bound method or destructor keeps its `self` parameter
// ---------------------------------------------------------------------------

pub open spec fn receiver_ok(f: crate::ir::IrFunctionV) -> bool {
    (f.method_of is Some && (f.kind == crate::kind::IrFunctionKind::Method || f.kind
        == crate::kind::IrFunctionKind::Destructor)) ==> f.params.len() >= 1
}

pub open spec fn outcomes_ok(outs: Seq<(Seq<char>, Outcome)>) -> bool {
    forall|k: int| 0 <= k < outs.len() ==> (#[trigger] outs[k].1 matches Outcome::Emit(f) ==> receiver_ok(f))
}

pub proof fn lemma_apply_receivers(s0: NormState, outs: Seq<(Seq<char>, Outcome)>)
    requires
        receivers_present(s0.fns),
        outcomes_ok(outs),
    ensures
        apply_outcomes(s0, outs) matches Ok(s) ==> receivers_present(s.fns),
    decreases outs.len(),
{
    if outs.len() > 0 {
        assert(outcomes_ok(outs.drop_last())) by {
            assert forall|k: int| 0 <= k < outs.drop_last().len() implies (#[trigger] outs.drop_last()[k].1 matches Outcome::Emit(f) ==> receiver_ok(f)) by {
                assert(outs.drop_last()[k] == outs[k]);
            }
        }
        lemma_apply_receivers(s0, outs.drop_last());
        assert(outs.last() == outs[outs.len() - 1]);
    }
}

pub proof fn lemma_fields_receivers(
    ns: Seq<Seq<char>>,
    owner: Seq<char>,
    h: Seq<char>,
    ms: Seq<Seq<char>>,
    fs: Seq<crate::parsed::CppFieldV>,
    env: TypeEnv,
)
    ensures
        receivers_present(crate::declarations::fields_fns(ns, owner, h, ms, fs, env)),
    decreases fs.len(),
{
    if fs.len() > 0 {
        lemma_fields_receivers(ns, owner, h, ms, fs.drop_last(), env);
    }
}

pub proof fn lemma_record_receivers(
    r: CppRecordV,
    h: Seq<char>,
    env: TypeEnv,
    sk0: Seq<(Seq<char>, Seq<char>)>,
)
    ensures
        norm_record(r, h, env, sk0) matches Ok(s) ==> receivers_present(s.fns),
{
    reveal(norm_record);
    reveal(crate::declarations::norm_ctor);
    reveal(crate::declarations::norm_method);
    let q = qualified(r.namespace, r.name);
    let co = crate::declarations::ctor_outcomes(r.namespace, r.name, h, r.constructors, env);
    let mo = crate::declarations::method_outcomes(r.namespace, r.name, h, r.methods, env);
    assert(outcomes_ok(co));
    assert(outcomes_ok(mo));
    let start = NormState { fns: seq![], skipped: sk0 };
    lemma_apply_receivers(start, co);
    lemma_fields_receivers(
        r.namespace,
        r.name,
        h,
        r.methods.map_values(|m: CppMethodV| m.name),
        r.fields,
        env,
    );
    let ctors: Result<NormState, Seq<char>> = if r.is_abstract {
        Ok(NormState { fns: seq![], skipped: sk0.push((q, crate::declarations::abstract_reason())) })
    } else if r.constructors.len() == 0 {
        Ok(NormState { fns: seq![crate::declarations::ctor_fn(r.namespace, r.name, h, seq![])], skipped: sk0 })
    } else {
        match apply_outcomes(start, co) {
            Err(e) => Err(e),
            Ok(s) => if s.fns.len() == 0 {
                Err(crate::declarations::no_ctor_message(q))
            } else {
                Ok(s)
            },
        }
    };
    if let Ok(s1) = ctors {
        let s2 = NormState {
            fns: s1.fns.push(crate::declarations::dtor_fn(r.namespace, r.name, h, r.has_destructor)),
            skipped: s1.skipped,
        };
        lemma_apply_receivers(s2, mo);
    }
}

pub proof fn lemma_records_receivers(
    rs: Seq<CppRecordV>,
    recs: Seq<IrRecordV>,
    env: TypeEnv,
    sk0: Seq<(Seq<char>, Seq<char>)>,
)
    ensures
        records_phase(rs, recs, env, sk0) matches Ok(s) ==> receivers_present(s.fns),
    decreases rs.len(),
{
    if rs.len() > 0 {
        lemma_records_receivers(rs.drop_last(), recs, env, sk0);
        if let Ok(s) = records_phase(rs.drop_last(), recs, env, sk0) {
            let r = rs.last();
            lemma_record_receivers(r, handle_of(recs, qualified(r.namespace, r.name)), env, s.skipped);
        }
    }
}

pub proof fn lemma_function_outcomes_ok(fs: Seq<CppFunctionV>, env: TypeEnv)
    ensures
        outcomes_ok(function_outcomes(fs, env)),
{
    reveal(crate::declarations::norm_function);
}


// ---------------------------------------------------------------------------
// The module
// ---------------------------------------------------------------------------

pub struct IrModuleV {
    pub version: u32,
    pub module: Seq<char>,
    pub source_headers: Seq<Seq<char>>,
    pub records: Seq<IrRecordV>,
    pub opaque_types: Seq<(Seq<char>, Seq<char>)>,
    pub functions: Seq<crate::ir::IrFunctionV>,
    pub enums: Seq<crate::ir::IrEnumV>,
    pub constants: Seq<(Seq<char>, Seq<char>)>,
    pub callbacks: Seq<crate::ir::IrCallbackV>,
    pub parser_backend: Seq<char>,
    pub notes: Seq<Seq<char>>,
    pub skipped: Seq<(Seq<char>, Seq<char>)>,
}

pub open spec fn module_view(m: crate::ir::IrModule) -> IrModuleV {
    IrModuleV {
        version: m.version,
        module: m.module@,
        source_headers: strs(m.source_headers@),
        records: records_view(m.records@),
        opaque_types: crate::ir::opaques_view(m.opaque_types@),
        functions: crate::ir::functions_view(m.functions@),
        enums: m.enums@.map_values(|e: IrEnum| e@),
        constants: m.constants@.map_values(|c: IrMacroConstant| (c.name@, c.value@)),
        callbacks: m.callbacks@.map_values(|c: IrCallback| c@),
        parser_backend: m.support.parser_backend@,
        notes: strs(m.support.notes@),
        skipped: skipped_view(m.support.skipped_declarations@),
    }
}

/// All callbacks normalized, or the first failure.
pub open spec fn callbacks_all(cs: Seq<CppCallbackTypedefV>, env: TypeEnv) -> Result<
    Seq<crate::ir::IrCallbackV>,
    Seq<char>,
>
    decreases cs.len(),
{
    if cs.len() == 0 {
        Ok(seq![])
    } else {
        match callbacks_all(cs.drop_last(), env) {
            Err(e) => Err(e),
            Ok(v) => match ir_callback(cs.last(), env) {
                Err(e) => Err(e),
                Ok(c) => Ok(v.push(c)),
            },
        }
    }
}

pub open spec fn support_notes(any_skipped: bool) -> Seq<Seq<char>> {
    let base = seq![
        "Parsed with clang AST and normalized into a conservative C ABI IR."@,
        "v1 intentionally rejects unsupported C++ constructs during type normalization."@,
    ];
    if any_skipped {
        base.push(
            "Skipped declarations are recorded in support.skipped_declarations when v1 cannot safely express them in raw output."@,
        )
    } else {
        base
    }
}

/// The type environment of an API under a context: the context's enums and aliases when
/// it has any, else those found in the API.
pub open spec fn api_env(ctx: crate::context::PipelineContextV, api: ParsedApi) -> TypeEnv {
    let enums = if ctx.known_enum_types.len() == 0 {
        named_enums(api.enums@)
    } else {
        ctx.known_enum_types
    };
    let aliases = if ctx.preferred_model_aliases.len() == 0 {
        aliases_after(seq![], api_pairs(api))
    } else {
        ctx.preferred_model_aliases
    };
    TypeEnv {
        cbs: callback_names(api_callbacks(api)),
        enums,
        recs: ir_records(api_records(api), aliases),
    }
}

/// The module before symbol disambiguation; `functions` still carry their base symbols.
pub open spec fn draft_module(ctx: crate::context::PipelineContextV, api: ParsedApi) -> Result<
    IrModuleV,
    Seq<char>,
> {
    let env = api_env(ctx, api);
    match records_phase(api_records(api), env.recs, env, seq![]) {
        Err(e) => Err(e),
        Ok(s1) => match apply_outcomes(s1, function_outcomes(api_functions(api), env)) {
            Err(e) => Err(e),
            Ok(s2) => match callbacks_all(api_callbacks(api), env) {
                Err(e) => Err(e),
                Ok(cbv) => {
                    let base = env.recs.map_values(|r: IrRecordV| (r.handle_name, r.cpp_type));
                    Ok(
                        IrModuleV {
                            version: match ctx.config.version {
                                Some(v) => v,
                                None => 1,
                            },
                            module: WRAPPER_PREFIX@,
                            source_headers: strs(api.headers@),
                            records: env.recs,
                            opaque_types: base + crate::normalize::opaque_additions(
                                base.map_values(|o: (Seq<char>, Seq<char>)| o.0),
                                crate::normalize::all_types(s2.fns),
                            ),
                            functions: s2.fns,
                            enums: api.enums@.map_values(|e: CppEnum| ir_enum(e)),
                            constants: api.macros@.map_values(
                                |m: CppMacroConstant| (m.name@, m.value@),
                            ),
                            callbacks: cbv,
                            parser_backend: "libclang"@,
                            notes: support_notes(s2.skipped.len() > 0),
                            skipped: s2.skipped,
                        },
                    )
                },
            },
        },
    }
}

/// The functions after symbol disambiguation.
pub open spec fn renamed(fs: Seq<crate::ir::IrFunctionV>) -> Seq<crate::ir::IrFunctionV> {
    Seq::new(
        fs.len(),
        |i: int| crate::ir::IrFunctionV { name: unique_name(fs, i), ..fs[i] },
    )
}


fn normalize_callbacks(
    config: &Config,
    api: &ParsedApi,
    callback_names: &Vec<String>,
    known_enum_types: &Vec<String>,
    known_records: &[IrRecord],
) -> (r: Result<Vec<IrCallback>, String>)
    ensures
        match callbacks_all(api_callbacks(*api), env_of(callback_names, known_enum_types, known_records)) {
            Ok(v) => r is Ok && r->Ok_0@.map_values(|c: IrCallback| c@) == v,
            Err(e) => r is Err && r->Err_0@ == e,
        },
{
    let ghost cs = api_callbacks(*api);
    let ghost env = env_of(callback_names, known_enum_types, known_records);
    let mut out: Vec<IrCallback> = Vec::new();
    let mut i: usize = 0;
    assert(out@.map_values(|c: IrCallback| c@) =~= Seq::<crate::ir::IrCallbackV>::empty());
    while i < api.callbacks.len()
        invariant
            i <= api.callbacks.len(),
            cs == api_callbacks(*api),
            env == env_of(callback_names, known_enum_types, known_records),
            callbacks_all(cs.take(i as int), env) == Ok::<Seq<crate::ir::IrCallbackV>, Seq<char>>(
                out@.map_values(|c: IrCallback| c@),
            ),
        decreases api.callbacks.len() - i,
    {
        assert(cs.take(i + 1).drop_last() =~= cs.take(i as int));
        assert(cs[i as int] == api.callbacks@[i as int]@);
        match normalize_callback(config, &api.callbacks[i], callback_names, known_enum_types, known_records) {
            Ok(c) => {
                let ghost before = out@;
                out.push(c);
                assert(out@.map_values(|c: IrCallback| c@) =~= before.map_values(|c: IrCallback| c@).push(c@));
            },
            Err(e) => {
                proof {
                    lemma_callbacks_err(cs, env, i + 1);
                }
                return Err(e);
            },
        }
        i = i + 1;
    }
    assert(cs.take(i as int) =~= cs);
    Ok(out)
}

pub proof fn lemma_callbacks_err(cs: Seq<CppCallbackTypedefV>, env: TypeEnv, k: int)
    requires
        0 <= k <= cs.len(),
        callbacks_all(cs.take(k), env) is Err,
    ensures
        callbacks_all(cs, env) == callbacks_all(cs.take(k), env),
    decreases cs.len() - k,
{
    if k < cs.len() {
        assert(cs.take(k + 1).drop_last() =~= cs.take(k));
        lemma_callbacks_err(cs, env, k + 1);
    } else {
        assert(cs.take(k) =~= cs);
    }
}

/// Normalizes a parsed API into the IR module: records (constructors, destructor, methods,
/// struct field accessors), free functions with their default-argument variants, enums,
/// macro constants and callbacks; opaque handle types for every model in use; then
/// disambiguates overloaded symbols and fails if any symbol still collides.
pub fn normalize(ctx: &PipelineContext, api: &ParsedApi) -> (r: Result<crate::ir::IrModule, String>)
    ensures
        match draft_module(ctx@, *api) {
            Err(e) => r is Err && r->Err_0@ == e,
            Ok(m) => if symbols_distinct(renamed(m.functions)) {
                r is Ok && module_view(r->Ok_0) == (IrModuleV { functions: renamed(m.functions), ..m })
            } else {
                r is Err && exists|syms: Seq<Seq<char>>|
                    sorted_strict(syms) && syms.to_set() == duplicated(renamed(m.functions))
                        && r->Err_0@ == collision_message(renamed(m.functions), syms)
            },
        },
{
    let config = &ctx.config;
    let callback_names = callback_name_set(api);
    let known_enum_types = if ctx.known_enum_types.len() == 0 {
        collect_known_enum_types(api)
    } else {
        crate::ir::copy_strings(&ctx.known_enum_types)
    };
    let abstract_types = collect_abstract_types(api);
    let aliases = if ctx.preferred_model_aliases.len() == 0 {
        collect_preferred_model_aliases(api)
    } else {
        crate::context::copy_aliases(&ctx.preferred_model_aliases)
    };
    let records = collect_ir_records(api, &aliases);
    let ghost env = api_env(ctx@, *api);
    assert(env == (TypeEnv {
        cbs: strs(callback_names@),
        enums: strs(known_enum_types@),
        recs: records_view(records@),
    }));
    let mut opaque_types: Vec<crate::ir::OpaqueType> = Vec::new();
    let mut i: usize = 0;
    while i < records.len()
        invariant
            i <= records.len(),
            crate::ir::opaques_view(opaque_types@) =~= records_view(records@).take(i as int).map_values(
                |r: IrRecordV| (r.handle_name, r.cpp_type),
            ),
        decreases records.len() - i,
    {
        let o = crate::ir::OpaqueType {
            name: records[i].handle_name.clone(),
            cpp_type: records[i].cpp_type.clone(),
        };
        let ghost before = opaque_types@;
        opaque_types.push(o);
        assert(crate::ir::opaques_view(opaque_types@) =~= crate::ir::opaques_view(before).push((o.name@, o.cpp_type@)));
        assert(records_view(records@).take(i + 1) =~= records_view(records@).take(i as int).push(
            records_view(records@)[i as int],
        ));
        i = i + 1;
    }
    assert(records_view(records@).take(i as int) =~= records_view(records@));
    let mut functions: Vec<crate::ir::IrFunction> = Vec::new();
    let mut skipped: Vec<crate::ir::SkippedDeclaration> = Vec::new();
    assert(skipped_view(skipped@) =~= Seq::<(Seq<char>, Seq<char>)>::empty());
    match normalize_records(
        config,
        api,
        &records,
        &abstract_types,
        &callback_names,
        &known_enum_types,
        &mut functions,
        &mut skipped,
    ) {
        Ok(()) => {},
        Err(e) => return Err(e),
    }
    let pairs = function_variant_pairs(api);
    match apply_function_phase(
        config,
        api,
        &pairs,
        &abstract_types,
        &callback_names,
        &known_enum_types,
        records.as_slice(),
        &mut functions,
        &mut skipped,
    ) {
        Ok(()) => {},
        Err(e) => return Err(e),
    }
    let mut enums: Vec<IrEnum> = Vec::new();
    let mut i: usize = 0;
    while i < api.enums.len()
        invariant
            i <= api.enums.len(),
            enums@.map_values(|e: IrEnum| e@) =~= api.enums@.take(i as int).map_values(
                |e: CppEnum| ir_enum(e),
            ),
        decreases api.enums.len() - i,
    {
        let e = normalize_enum(&api.enums[i]);
        let ghost before = enums@;
        enums.push(e);
        assert(enums@.map_values(|e: IrEnum| e@) =~= before.map_values(|e: IrEnum| e@).push(e@));
        assert(api.enums@.take(i + 1) =~= api.enums@.take(i as int).push(api.enums@[i as int]));
        i = i + 1;
    }
    assert(api.enums@.take(i as int) =~= api.enums@);
    let mut constants: Vec<IrMacroConstant> = Vec::new();
    let mut i: usize = 0;
    while i < api.macros.len()
        invariant
            i <= api.macros.len(),
            constants@.map_values(|c: IrMacroConstant| (c.name@, c.value@)) =~= api.macros@.take(
                i as int,
            ).map_values(|m: CppMacroConstant| (m.name@, m.value@)),
        decreases api.macros.len() - i,
    {
        let c = normalize_macro_constant(&api.macros[i]);
        let ghost before = constants@;
        constants.push(c);
        assert(constants@.map_values(|c: IrMacroConstant| (c.name@, c.value@)) =~= before.map_values(
            |c: IrMacroConstant| (c.name@, c.value@),
        ).push((c.name@, c.value@)));
        assert(api.macros@.take(i + 1) =~= api.macros@.take(i as int).push(api.macros@[i as int]));
        i = i + 1;
    }
    assert(api.macros@.take(i as int) =~= api.macros@);
    let callbacks = match normalize_callbacks(
        config,
        api,
        &callback_names,
        &known_enum_types,
        records.as_slice(),
    ) {
        Ok(c) => c,
        Err(e) => return Err(e),
    };
    let ghost draft_fns = crate::ir::functions_view(functions@);
    crate::normalize::collect_referenced_opaque_types(&mut opaque_types, functions.as_slice());
    proof {
        lemma_records_receivers(api_records(*api), env.recs, env, seq![]);
        lemma_function_outcomes_ok(api_functions(*api), env);
        let s1 = records_phase(api_records(*api), env.recs, env, seq![])->Ok_0;
        lemma_apply_receivers(s1, function_outcomes(api_functions(*api), env));
    }
    assign_unique_function_symbols(&mut functions);
    assert(crate::ir::functions_view(functions@) =~= renamed(draft_fns));
    match ensure_unique_function_symbols(&functions) {
        Ok(()) => {},
        Err(e) => return Err(e),
    }
    let mut notes: Vec<String> = Vec::new();
    notes.push(String::from_str("Parsed with clang AST and normalized into a conservative C ABI IR."));
    notes.push(
        String::from_str(
            "v1 intentionally rejects unsupported C++ constructs during type normalization.",
        ),
    );
    if skipped.len() > 0 {
        notes.push(
            String::from_str(
                "Skipped declarations are recorded in support.skipped_declarations when v1 cannot safely express them in raw output.",
            ),
        );
    }
    assert(strs(notes@) =~= support_notes(skipped.len() > 0));
    let version = match config.version {
        Some(v) => v,
        None => 1,
    };
    Ok(
        crate::ir::IrModule {
            version,
            module: String::from_str(WRAPPER_PREFIX),
            source_headers: crate::ir::copy_strings(&api.headers),
            records,
            opaque_types,
            functions,
            enums,
            constants,
            callbacks,
            support: crate::ir::SupportMetadata {
                parser_backend: String::from_str("libclang"),
                notes,
                skipped_declarations: skipped,
            },
        },
    )
}

} // verus!
