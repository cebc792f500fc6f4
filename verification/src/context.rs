//! The settings and discovered facts that the pipeline stages share.
use vstd::prelude::*;

use crate::config::{scoped_output, Config, ConfigV};
use crate::ir::{contains_str, copy_opt, copy_strings, opt_view, strs};
use crate::projection::{copy_projections, projections_view, ModelProjection, ModelProjectionV};
use crate::text::{after_last, after_last_lit, chars_of, seq_eq, string_of, trim, trim_vec};
use crate::types::{
    base_model, base_model_vec, enum_base, enum_base_vec, known_enum, known_enum_exec,
    names_match, names_match_exec,
};

verus! {

/// A public alias under which a model class is preferably named (`_FOO` seen as `FOO`).
#[derive(Debug, Clone)]
pub struct ModelAlias {
    pub cpp_type: String,
    pub alias: String,
}

pub open spec fn alias_pairs(v: Seq<ModelAlias>) -> Seq<(Seq<char>, Seq<char>)> {
    v.map_values(|a: ModelAlias| (a.cpp_type@, a.alias@))
}

/// The alias table maps each class to one alias: no class has two entries.
pub open spec fn aliases_keyed_once(v: Seq<(Seq<char>, Seq<char>)>) -> bool {
    forall|i: int, j: int| 0 <= i < j < v.len() ==> v[i].0 != v[j].0
}

/// The alias recorded for `key`: the first entry for it.
pub open spec fn alias_lookup(v: Seq<(Seq<char>, Seq<char>)>, key: Seq<char>) -> Option<
    Seq<char>,
>
    decreases v.len(),
{
    if v.len() == 0 {
        None
    } else if v[0].0 == key {
        Some(v[0].1)
    } else {
        alias_lookup(v.drop_first(), key)
    }
}

pub fn copy_aliases(v: &Vec<ModelAlias>) -> (r: Vec<ModelAlias>)
    ensures
        alias_pairs(r@) == alias_pairs(v@),
{
    let mut r: Vec<ModelAlias> = Vec::new();
    let mut i: usize = 0;
    while i < v.len()
        invariant
            i <= v.len(),
            alias_pairs(r@) =~= alias_pairs(v@.take(i as int)),
        decreases v.len() - i,
    {
        let a = ModelAlias { cpp_type: v[i].cpp_type.clone(), alias: v[i].alias.clone() };
        let ghost before = r@;
        r.push(a);
        assert(v@.take(i + 1) =~= v@.take(i as int).push(v@[i as int]));
        assert(alias_pairs(r@) =~= alias_pairs(before).push((a.cpp_type@, a.alias@)));
        i = i + 1;
    }
    assert(v@.take(i as int) =~= v@);
    r
}

pub fn lookup_alias(v: &Vec<ModelAlias>, key: &[char]) -> (r: Option<String>)
    ensures
        opt_view(r) == alias_lookup(alias_pairs(v@), key@),
{
    let ghost pairs = alias_pairs(v@);
    let mut i: usize = 0;
    assert(pairs.skip(0) =~= pairs);
    while i < v.len()
        invariant
            i <= v.len(),
            pairs == alias_pairs(v@),
            alias_lookup(pairs, key@) == alias_lookup(pairs.skip(i as int), key@),
        decreases v.len() - i,
    {
        assert(pairs.skip(i as int).drop_first() =~= pairs.skip(i + 1));
        let c = chars_of(v[i].cpp_type.as_str());
        if seq_eq(c.as_slice(), key) {
            return Some(v[i].alias.clone());
        }
        i = i + 1;
    }
    None
}

#[derive(Debug, Clone)]
pub struct PipelineContext {
    pub config: Config,
    pub known_model_types: Vec<String>,
    pub known_enum_types: Vec<String>,
    pub preferred_model_aliases: Vec<ModelAlias>,
    pub known_model_projections: Vec<ModelProjection>,
    pub go_module: Option<String>,
    pub target_header: Option<String>,
    pub raw_clang_args: Vec<String>,
}

pub struct PipelineContextV {
    pub config: ConfigV,
    pub known_model_types: Seq<Seq<char>>,
    pub known_enum_types: Seq<Seq<char>>,
    pub preferred_model_aliases: Seq<(Seq<char>, Seq<char>)>,
    pub known_model_projections: Seq<ModelProjectionV>,
    pub go_module: Option<Seq<char>>,
    pub target_header: Option<Seq<char>>,
    pub raw_clang_args: Seq<Seq<char>>,
}

impl View for PipelineContext {
    type V = PipelineContextV;

    open spec fn view(&self) -> PipelineContextV {
        PipelineContextV {
            config: self.config@,
            known_model_types: strs(self.known_model_types@),
            known_enum_types: strs(self.known_enum_types@),
            preferred_model_aliases: alias_pairs(self.preferred_model_aliases@),
            known_model_projections: projections_view(self.known_model_projections@),
            go_module: opt_view(self.go_module),
            target_header: opt_view(self.target_header),
            raw_clang_args: strs(self.raw_clang_args@),
        }
    }
}

/// Whether some known model type is named by `value` (ignoring `const`, `&`, `*`, and
/// matching an unqualified leaf against a qualified name).
pub open spec fn known_model(value: Seq<char>, types: Seq<Seq<char>>) -> bool {
    exists|i: int| 0 <= i < types.len() && names_match(base_model(types[i]), base_model(value))
}

/// Index of the first projection whose C++ type is named by `value`.
pub open spec fn first_projection(ps: Seq<ModelProjectionV>, value: Seq<char>, i: int) -> Option<
    int,
>
    decreases ps.len() - i,
{
    if i < 0 || i >= ps.len() {
        None
    } else if names_match(base_model(ps[i].cpp_type), base_model(value)) {
        Some(i)
    } else {
        first_projection(ps, value, i + 1)
    }
}

/// Index of the first known enum named by `value`.
pub open spec fn first_enum(es: Seq<Seq<char>>, value: Seq<char>, i: int) -> Option<int>
    decreases es.len() - i,
{
    if i < 0 || i >= es.len() {
        None
    } else if names_match(enum_base(es[i]), enum_base(value)) {
        Some(i)
    } else {
        first_enum(es, value, i + 1)
    }
}

/// The Go type of a known enum: the leaf of the matching enum's name.
pub open spec fn enum_go_type(es: Seq<Seq<char>>, value: Seq<char>) -> Option<Seq<char>> {
    match first_enum(es, value, 0) {
        Some(i) => Some(after_last(enum_base(es[i]), "::"@)),
        None => None,
    }
}

pub proof fn lemma_first_enum_bounds(es: Seq<Seq<char>>, value: Seq<char>, i: int)
    ensures
        first_enum(es, value, i) matches Some(k) ==> i <= k < es.len(),
    decreases es.len() - i,
{
    if 0 <= i < es.len() && !names_match(enum_base(es[i]), enum_base(value)) {
        lemma_first_enum_bounds(es, value, i + 1);
    }
}

pub proof fn lemma_first_projection_bounds(ps: Seq<ModelProjectionV>, value: Seq<char>, i: int)
    ensures
        first_projection(ps, value, i) matches Some(k) ==> i <= k < ps.len(),
    decreases ps.len() - i,
{
    if 0 <= i < ps.len() && !names_match(base_model(ps[i].cpp_type), base_model(value)) {
        lemma_first_projection_bounds(ps, value, i + 1);
    }
}

/// Whether an `input.owner` entry, trimmed, is `name`.
pub open spec fn owner_listed(owners: Seq<Seq<char>>, name: Seq<char>) -> bool {
    exists|i: int| 0 <= i < owners.len() && trim(owners[i]) == name
}

impl PipelineContext {
    pub fn new(config: Config) -> (r: PipelineContext)
        ensures
            r@.config == config@,
            r@.raw_clang_args == config@.input.clang_args,
            r@.known_model_types.len() == 0,
            r@.known_enum_types.len() == 0,
            r@.preferred_model_aliases.len() == 0,
            r@.known_model_projections.len() == 0,
            r@.go_module is None,
            r@.target_header is None,
    {
        let raw_clang_args = copy_strings(&config.input.clang_args);
        let r = PipelineContext {
            raw_clang_args,
            config,
            known_model_types: Vec::new(),
            known_enum_types: Vec::new(),
            preferred_model_aliases: Vec::new(),
            known_model_projections: Vec::new(),
            go_module: None,
            target_header: None,
        };
        assert(r@.known_model_types =~= Seq::<Seq<char>>::empty());
        r
    }

    pub fn with_go_module(self, go_module: Option<String>) -> (r: PipelineContext)
        ensures
            r@ == (PipelineContextV { go_module: opt_view(go_module), ..self@ }),
    {
        PipelineContext { go_module, ..self }
    }

    pub fn with_raw_clang_args(self, raw_clang_args: Vec<String>) -> (r: PipelineContext)
        ensures
            r@ == (PipelineContextV { raw_clang_args: strs(raw_clang_args@), ..self@ }),
    {
        PipelineContext { raw_clang_args, ..self }
    }

    pub fn with_output_dir(self, output_dir: String) -> (r: PipelineContext)
        ensures
            r@.config.output.dir == output_dir@,
            r@.config.output == (crate::config::OutputConfigV {
                dir: output_dir@,
                ..self@.config.output
            }),
            r@.config.input == self@.config.input,
            r@.config.version == self@.config.version,
            r@ == (PipelineContextV { config: r@.config, ..self@ }),
    {
        let mut s = self;
        s.config.output.dir = output_dir;
        s
    }

    pub fn with_known_model_types(self, known_model_types: Vec<String>) -> (r: PipelineContext)
        ensures
            r@ == (PipelineContextV { known_model_types: strs(known_model_types@), ..self@ }),
    {
        PipelineContext { known_model_types, ..self }
    }

    pub fn with_known_enum_types(self, known_enum_types: Vec<String>) -> (r: PipelineContext)
        ensures
            r@ == (PipelineContextV { known_enum_types: strs(known_enum_types@), ..self@ }),
    {
        PipelineContext { known_enum_types, ..self }
    }

    pub fn with_preferred_model_aliases(self, preferred_model_aliases: Vec<ModelAlias>) -> (r:
        PipelineContext)
        requires
            aliases_keyed_once(alias_pairs(preferred_model_aliases@)),
        ensures
            r@ == (PipelineContextV {
                preferred_model_aliases: alias_pairs(preferred_model_aliases@),
                ..self@
            }),
    {
        PipelineContext { preferred_model_aliases, ..self }
    }

    pub fn with_known_model_projections(
        self,
        known_model_projections: Vec<ModelProjection>,
    ) -> (r: PipelineContext)
        ensures
            r@ == (PipelineContextV {
                known_model_projections: projections_view(known_model_projections@),
                ..self@
            }),
    {
        PipelineContext { known_model_projections, ..self }
    }

    /// An equal context.
    pub fn copy(&self) -> (r: PipelineContext)
        ensures
            r@ == self@,
    {
        PipelineContext {
            config: self.config.copy(),
            known_model_types: copy_strings(&self.known_model_types),
            known_enum_types: copy_strings(&self.known_enum_types),
            preferred_model_aliases: copy_aliases(&self.preferred_model_aliases),
            known_model_projections: copy_projections(&self.known_model_projections),
            go_module: copy_opt(&self.go_module),
            target_header: copy_opt(&self.target_header),
            raw_clang_args: copy_strings(&self.raw_clang_args),
        }
    }

    /// A context for one header: output names follow the header, which becomes the target.
    pub fn scoped_to_header(&self, header: String) -> (r: PipelineContext)
        ensures
            r@.config.version == self@.config.version,
            r@.config.input == self@.config.input,
            r@.config.output == scoped_output(self@.config.output, header@),
            r@.target_header == Some(header@),
            r@.known_model_types == self@.known_model_types,
            r@.known_enum_types == self@.known_enum_types,
            r@.preferred_model_aliases == self@.preferred_model_aliases,
            r@.known_model_projections == self@.known_model_projections,
            r@.go_module == self@.go_module,
            r@.raw_clang_args == self@.raw_clang_args,
    {
        let scoped_config = self.config.scoped_to_header(header.as_str());
        PipelineContext {
            config: scoped_config,
            known_model_types: copy_strings(&self.known_model_types),
            known_enum_types: copy_strings(&self.known_enum_types),
            preferred_model_aliases: copy_aliases(&self.preferred_model_aliases),
            known_model_projections: copy_projections(&self.known_model_projections),
            go_module: copy_opt(&self.go_module),
            target_header: Some(header),
            raw_clang_args: copy_strings(&self.raw_clang_args),
        }
    }

    pub fn known_model_projection(&self, cpp_type: &str) -> (r: Option<&ModelProjection>)
        ensures
            match first_projection(self@.known_model_projections, cpp_type@, 0) {
                Some(k) => r is Some && r->0@ == self@.known_model_projections[k],
                None => r is None,
            },
    {
        let v = chars_of(cpp_type);
        let base = base_model_vec(v.as_slice());
        let ghost ps = self@.known_model_projections;
        let mut i: usize = 0;
        while i < self.known_model_projections.len()
            invariant
                i <= self.known_model_projections.len(),
                ps == self@.known_model_projections,
                base@ == base_model(cpp_type@),
                first_projection(ps, cpp_type@, 0) == first_projection(ps, cpp_type@, i as int),
            decreases self.known_model_projections.len() - i,
        {
            let c = chars_of(self.known_model_projections[i].cpp_type.as_str());
            let normalized = base_model_vec(c.as_slice());
            assert(ps[i as int] == self.known_model_projections@[i as int]@);
            if names_match_exec(normalized.as_slice(), base.as_slice()) {
                return Some(&self.known_model_projections[i]);
            }
            i = i + 1;
        }
        None
    }

    pub fn is_known_model_type(&self, cpp_type: &str) -> (b: bool)
        ensures
            b == known_model(cpp_type@, self@.known_model_types),
    {
        let v = chars_of(cpp_type);
        let base = base_model_vec(v.as_slice());
        let ghost ts = self@.known_model_types;
        let mut i: usize = 0;
        while i < self.known_model_types.len()
            invariant
                i <= self.known_model_types.len(),
                ts == self@.known_model_types,
                base@ == base_model(cpp_type@),
                forall|k: int| 0 <= k < i ==> !names_match(base_model(ts[k]), base_model(cpp_type@)),
            decreases self.known_model_types.len() - i,
        {
            let c = chars_of(self.known_model_types[i].as_str());
            let normalized = base_model_vec(c.as_slice());
            assert(ts[i as int] == self.known_model_types@[i as int]@);
            if names_match_exec(normalized.as_slice(), base.as_slice()) {
                return true;
            }
            i = i + 1;
        }
        false
    }

    pub fn is_known_enum_type(&self, cpp_type: &str) -> (b: bool)
        ensures
            b == known_enum(cpp_type@, self@.known_enum_types),
    {
        let v = chars_of(cpp_type);
        known_enum_exec(v.as_slice(), &self.known_enum_types)
    }

    pub fn known_enum_go_type(&self, cpp_type: &str) -> (r: Option<String>)
        ensures
            opt_view(r) == enum_go_type(self@.known_enum_types, cpp_type@),
    {
        let v = chars_of(cpp_type);
        let base = enum_base_vec(v.as_slice());
        let ghost es = self@.known_enum_types;
        let mut i: usize = 0;
        while i < self.known_enum_types.len()
            invariant
                i <= self.known_enum_types.len(),
                es == self@.known_enum_types,
                base@ == enum_base(cpp_type@),
                first_enum(es, cpp_type@, 0) == first_enum(es, cpp_type@, i as int),
            decreases self.known_enum_types.len() - i,
        {
            let c = chars_of(self.known_enum_types[i].as_str());
            let normalized = enum_base_vec(c.as_slice());
            assert(es[i as int] == self.known_enum_types@[i as int]@);
            if names_match_exec(normalized.as_slice(), base.as_slice()) {
                let leaf = after_last_lit(normalized.as_slice(), "::");
                return Some(string_of(leaf.as_slice()));
            }
            i = i + 1;
        }
        None
    }

    pub fn raw_clang_args(&self) -> (r: &[String])
        ensures
            strs(r@) == self@.raw_clang_args,
    {
        self.raw_clang_args.as_slice()
    }

    /// Whether `cpp_name` is listed, trimmed, under `input.owner`.
    pub fn owner_marks_callable(&self, cpp_name: &str) -> (b: bool)
        ensures
            b == owner_listed(self@.config.input.owner, cpp_name@),
    {
        let name = chars_of(cpp_name);
        let ghost os = self@.config.input.owner;
        let mut i: usize = 0;
        while i < self.config.input.owner.len()
            invariant
                i <= self.config.input.owner.len(),
                os == self@.config.input.owner,
                name@ == cpp_name@,
                forall|k: int| 0 <= k < i ==> trim(os[k]) != cpp_name@,
            decreases self.config.input.owner.len() - i,
        {
            let c = chars_of(self.config.input.owner[i].as_str());
            let t = trim_vec(c.as_slice());
            assert(os[i as int] == self.config.input.owner@[i as int]@);
            if seq_eq(t.as_slice(), name.as_slice()) {
                return true;
            }
            i = i + 1;
        }
        false
    }
}

} // verus!
