//! The declarations read from the C/C++ headers, before normalization.
//!
//! Header paths are kept as the parser reported them: canonical paths, so that two
//! spellings of one header compare equal as strings.
use vstd::prelude::*;

use crate::ir::{opt_view, strs};
use crate::kind::RecordKind;
use crate::text::{chars_of, seq_eq};

verus! {

#[derive(Debug, Clone)]
pub struct ParsedApi {
    pub headers: Vec<String>,
    pub functions: Vec<CppFunction>,
    pub records: Vec<CppRecord>,
    pub enums: Vec<CppEnum>,
    pub macros: Vec<CppMacroConstant>,
    pub callbacks: Vec<CppCallbackTypedef>,
}

#[derive(Debug, Clone)]
pub struct CppRecord {
    pub source_header: String,
    pub namespace: Vec<String>,
    pub name: String,
    pub kind: RecordKind,
    pub fields: Vec<CppField>,
    pub methods: Vec<CppMethod>,
    pub constructors: Vec<CppConstructor>,
    pub has_destructor: bool,
    pub has_declared_constructor: bool,
    pub is_abstract: bool,
}

#[derive(Debug, Clone)]
pub struct CppFunction {
    pub source_header: String,
    pub namespace: Vec<String>,
    pub name: String,
    pub return_type: String,
    pub return_canonical_type: String,
    pub return_is_function_pointer: bool,
    pub params: Vec<CppParam>,
}

#[derive(Debug, Clone)]
pub struct CppMethod {
    pub name: String,
    pub return_type: String,
    pub return_canonical_type: String,
    pub return_is_function_pointer: bool,
    pub params: Vec<CppParam>,
    pub is_const: bool,
}

#[derive(Debug, Clone)]
pub struct CppConstructor {
    pub params: Vec<CppParam>,
}

#[derive(Debug, Clone)]
pub struct CppField {
    pub name: String,
    pub ty: String,
    pub canonical_ty: String,
    pub is_function_pointer: bool,
}

#[derive(Debug, Clone)]
pub struct CppParam {
    pub name: String,
    pub ty: String,
    pub canonical_ty: String,
    pub is_function_pointer: bool,
    pub callback_typedef: Option<String>,
    pub has_default: bool,
}

#[derive(Debug, Clone)]
pub struct CppCallbackTypedef {
    pub source_header: String,
    pub namespace: Vec<String>,
    pub name: String,
    pub return_type: String,
    pub return_canonical_type: String,
    pub params: Vec<CppParam>,
}

#[derive(Debug, Clone)]
pub struct CppEnum {
    pub source_header: String,
    pub namespace: Vec<String>,
    pub name: String,
    pub is_anonymous: bool,
    pub variants: Vec<CppEnumVariant>,
}

#[derive(Debug, Clone)]
pub struct CppEnumVariant {
    pub name: String,
    pub value: Option<String>,
}

#[derive(Debug, Clone)]
pub struct CppMacroConstant {
    pub source_header: String,
    pub name: String,
    pub value: String,
}

pub struct CppParamV {
    pub name: Seq<char>,
    pub ty: Seq<char>,
    pub canonical_ty: Seq<char>,
    pub is_function_pointer: bool,
    pub callback_typedef: Option<Seq<char>>,
    pub has_default: bool,
}

impl View for CppParam {
    type V = CppParamV;

    open spec fn view(&self) -> CppParamV {
        CppParamV {
            name: self.name@,
            ty: self.ty@,
            canonical_ty: self.canonical_ty@,
            is_function_pointer: self.is_function_pointer,
            callback_typedef: opt_view(self.callback_typedef),
            has_default: self.has_default,
        }
    }
}

pub open spec fn cparams(v: Seq<CppParam>) -> Seq<CppParamV> {
    v.map_values(|p: CppParam| p@)
}

pub struct CppFieldV {
    pub name: Seq<char>,
    pub ty: Seq<char>,
    pub canonical_ty: Seq<char>,
    pub is_function_pointer: bool,
}

impl View for CppField {
    type V = CppFieldV;

    open spec fn view(&self) -> CppFieldV {
        CppFieldV {
            name: self.name@,
            ty: self.ty@,
            canonical_ty: self.canonical_ty@,
            is_function_pointer: self.is_function_pointer,
        }
    }
}

pub struct CppMethodV {
    pub name: Seq<char>,
    pub return_type: Seq<char>,
    pub return_canonical_type: Seq<char>,
    pub return_is_function_pointer: bool,
    pub params: Seq<CppParamV>,
    pub is_const: bool,
}

impl View for CppMethod {
    type V = CppMethodV;

    open spec fn view(&self) -> CppMethodV {
        CppMethodV {
            name: self.name@,
            return_type: self.return_type@,
            return_canonical_type: self.return_canonical_type@,
            return_is_function_pointer: self.return_is_function_pointer,
            params: cparams(self.params@),
            is_const: self.is_const,
        }
    }
}

pub struct CppFunctionV {
    pub source_header: Seq<char>,
    pub namespace: Seq<Seq<char>>,
    pub name: Seq<char>,
    pub return_type: Seq<char>,
    pub return_canonical_type: Seq<char>,
    pub return_is_function_pointer: bool,
    pub params: Seq<CppParamV>,
}

impl View for CppFunction {
    type V = CppFunctionV;

    open spec fn view(&self) -> CppFunctionV {
        CppFunctionV {
            source_header: self.source_header@,
            namespace: strs(self.namespace@),
            name: self.name@,
            return_type: self.return_type@,
            return_canonical_type: self.return_canonical_type@,
            return_is_function_pointer: self.return_is_function_pointer,
            params: cparams(self.params@),
        }
    }
}

pub struct CppRecordV {
    pub source_header: Seq<char>,
    pub namespace: Seq<Seq<char>>,
    pub name: Seq<char>,
    pub kind: RecordKind,
    pub fields: Seq<CppFieldV>,
    pub methods: Seq<CppMethodV>,
    pub constructors: Seq<Seq<CppParamV>>,
    pub has_destructor: bool,
    pub has_declared_constructor: bool,
    pub is_abstract: bool,
}

impl View for CppRecord {
    type V = CppRecordV;

    open spec fn view(&self) -> CppRecordV {
        CppRecordV {
            source_header: self.source_header@,
            namespace: strs(self.namespace@),
            name: self.name@,
            kind: self.kind,
            fields: self.fields@.map_values(|f: CppField| f@),
            methods: self.methods@.map_values(|m: CppMethod| m@),
            constructors: self.constructors@.map_values(|c: CppConstructor| cparams(c.params@)),
            has_destructor: self.has_destructor,
            has_declared_constructor: self.has_declared_constructor,
            is_abstract: self.is_abstract,
        }
    }
}

pub struct CppCallbackTypedefV {
    pub namespace: Seq<Seq<char>>,
    pub name: Seq<char>,
    pub return_type: Seq<char>,
    pub return_canonical_type: Seq<char>,
    pub params: Seq<CppParamV>,
}

impl View for CppCallbackTypedef {
    type V = CppCallbackTypedefV;

    open spec fn view(&self) -> CppCallbackTypedefV {
        CppCallbackTypedefV {
            namespace: strs(self.namespace@),
            name: self.name@,
            return_type: self.return_type@,
            return_canonical_type: self.return_canonical_type@,
            params: cparams(self.params@),
        }
    }
}

/// Whether a declaration from `src` belongs to `header`.
pub open spec fn in_header(src: Seq<char>, header: Seq<char>) -> bool {
    src == header
}

fn same_header(src: &String, header: &[char]) -> (b: bool)
    ensures
        b == in_header(src@, header@),
{
    let s = chars_of(src.as_str());
    seq_eq(s.as_slice(), header)
}

pub open spec fn function_in(h: Seq<char>) -> spec_fn(CppFunction) -> bool {
    |x: CppFunction| in_header(x.source_header@, h)
}

fn keep_functions(items: Vec<CppFunction>, h: &[char]) -> (r: Vec<CppFunction>)
    ensures
        r@ == items@.filter(function_in(h@)),
{
    let ghost orig = items@;
    let mut items = items;
    let mut kept: Vec<CppFunction> = Vec::new();
    let ghost mut k: int = 0;
    assert(orig.skip(0) =~= orig);
    while items.len() > 0
        invariant
            0 <= k <= orig.len(),
            items@ == orig.skip(k),
            kept@ == orig.take(k).filter(function_in(h@)),
        decreases items.len(),
    {
        let x = items.remove(0);
        proof {
            reveal(Seq::filter);
            assert(orig.take(k + 1).drop_last() =~= orig.take(k));
            assert(orig.skip(k + 1) =~= orig.skip(k).drop_first());
        }
        if same_header(&x.source_header, h) {
            kept.push(x);
        }
        proof {
            k = k + 1;
        }
    }
    assert(orig.take(k) =~= orig);
    kept
}

pub open spec fn record_in(h: Seq<char>) -> spec_fn(CppRecord) -> bool {
    |x: CppRecord| in_header(x.source_header@, h)
}

fn keep_records(items: Vec<CppRecord>, h: &[char]) -> (r: Vec<CppRecord>)
    ensures
        r@ == items@.filter(record_in(h@)),
{
    let ghost orig = items@;
    let mut items = items;
    let mut kept: Vec<CppRecord> = Vec::new();
    let ghost mut k: int = 0;
    assert(orig.skip(0) =~= orig);
    while items.len() > 0
        invariant
            0 <= k <= orig.len(),
            items@ == orig.skip(k),
            kept@ == orig.take(k).filter(record_in(h@)),
        decreases items.len(),
    {
        let x = items.remove(0);
        proof {
            reveal(Seq::filter);
            assert(orig.take(k + 1).drop_last() =~= orig.take(k));
            assert(orig.skip(k + 1) =~= orig.skip(k).drop_first());
        }
        if same_header(&x.source_header, h) {
            kept.push(x);
        }
        proof {
            k = k + 1;
        }
    }
    assert(orig.take(k) =~= orig);
    kept
}

pub open spec fn enum_in(h: Seq<char>) -> spec_fn(CppEnum) -> bool {
    |x: CppEnum| in_header(x.source_header@, h)
}

fn keep_enums(items: Vec<CppEnum>, h: &[char]) -> (r: Vec<CppEnum>)
    ensures
        r@ == items@.filter(enum_in(h@)),
{
    let ghost orig = items@;
    let mut items = items;
    let mut kept: Vec<CppEnum> = Vec::new();
    let ghost mut k: int = 0;
    assert(orig.skip(0) =~= orig);
    while items.len() > 0
        invariant
            0 <= k <= orig.len(),
            items@ == orig.skip(k),
            kept@ == orig.take(k).filter(enum_in(h@)),
        decreases items.len(),
    {
        let x = items.remove(0);
        proof {
            reveal(Seq::filter);
            assert(orig.take(k + 1).drop_last() =~= orig.take(k));
            assert(orig.skip(k + 1) =~= orig.skip(k).drop_first());
        }
        if same_header(&x.source_header, h) {
            kept.push(x);
        }
        proof {
            k = k + 1;
        }
    }
    assert(orig.take(k) =~= orig);
    kept
}

pub open spec fn macro_in(h: Seq<char>) -> spec_fn(CppMacroConstant) -> bool {
    |x: CppMacroConstant| in_header(x.source_header@, h)
}

fn keep_macros(items: Vec<CppMacroConstant>, h: &[char]) -> (r: Vec<CppMacroConstant>)
    ensures
        r@ == items@.filter(macro_in(h@)),
{
    let ghost orig = items@;
    let mut items = items;
    let mut kept: Vec<CppMacroConstant> = Vec::new();
    let ghost mut k: int = 0;
    assert(orig.skip(0) =~= orig);
    while items.len() > 0
        invariant
            0 <= k <= orig.len(),
            items@ == orig.skip(k),
            kept@ == orig.take(k).filter(macro_in(h@)),
        decreases items.len(),
    {
        let x = items.remove(0);
        proof {
            reveal(Seq::filter);
            assert(orig.take(k + 1).drop_last() =~= orig.take(k));
            assert(orig.skip(k + 1) =~= orig.skip(k).drop_first());
        }
        if same_header(&x.source_header, h) {
            kept.push(x);
        }
        proof {
            k = k + 1;
        }
    }
    assert(orig.take(k) =~= orig);
    kept
}

pub open spec fn callback_in(h: Seq<char>) -> spec_fn(CppCallbackTypedef) -> bool {
    |x: CppCallbackTypedef| in_header(x.source_header@, h)
}

fn keep_callbacks(items: Vec<CppCallbackTypedef>, h: &[char]) -> (r: Vec<CppCallbackTypedef>)
    ensures
        r@ == items@.filter(callback_in(h@)),
{
    let ghost orig = items@;
    let mut items = items;
    let mut kept: Vec<CppCallbackTypedef> = Vec::new();
    let ghost mut k: int = 0;
    assert(orig.skip(0) =~= orig);
    while items.len() > 0
        invariant
            0 <= k <= orig.len(),
            items@ == orig.skip(k),
            kept@ == orig.take(k).filter(callback_in(h@)),
        decreases items.len(),
    {
        let x = items.remove(0);
        proof {
            reveal(Seq::filter);
            assert(orig.take(k + 1).drop_last() =~= orig.take(k));
            assert(orig.skip(k + 1) =~= orig.skip(k).drop_first());
        }
        if same_header(&x.source_header, h) {
            kept.push(x);
        }
        proof {
            k = k + 1;
        }
    }
    assert(orig.take(k) =~= orig);
    kept
}

impl ParsedApi {
    /// The declarations of one header; `headers` becomes that header alone.
    pub fn filter_to_header(self, header: &str) -> (r: ParsedApi)
        ensures
            strs(r.headers@) == seq![header@],
            r.functions@ == self.functions@.filter(function_in(header@)),
            r.records@ == self.records@.filter(record_in(header@)),
            r.enums@ == self.enums@.filter(enum_in(header@)),
            r.macros@ == self.macros@.filter(macro_in(header@)),
            r.callbacks@ == self.callbacks@.filter(callback_in(header@)),
    {
        let h = chars_of(header);
        let mut headers: Vec<String> = Vec::new();
        headers.push(String::from_str(header));
        assert(strs(headers@) =~= seq![header@]);
        ParsedApi {
            headers,
            functions: keep_functions(self.functions, h.as_slice()),
            records: keep_records(self.records, h.as_slice()),
            enums: keep_enums(self.enums, h.as_slice()),
            macros: keep_macros(self.macros, h.as_slice()),
            callbacks: keep_callbacks(self.callbacks, h.as_slice()),
        }
    }

    pub fn is_empty(&self) -> (b: bool)
        ensures
            b == (self.functions@.len() == 0 && self.records@.len() == 0 && self.enums@.len() == 0
                && self.macros@.len() == 0 && self.callbacks@.len() == 0),
    {
        self.functions.len() == 0 && self.records.len() == 0 && self.enums.len() == 0
            && self.macros.len() == 0 && self.callbacks.len() == 0
    }
}

} // verus!
