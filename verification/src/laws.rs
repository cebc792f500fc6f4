//! Properties that hold across the generator's steps.
use vstd::prelude::*;

use crate::analysis::{projection_of, projections_over};
use crate::assemble::{symbols_distinct, IrModuleV};
use crate::context::{alias_lookup, PipelineContextV};
use crate::env::{expand, EnvVarV};
use crate::header::{delete_order, delete_symbol, has_symbol, owned_handle};
use crate::ir::{IrFunctionV, IrTypeV};
use crate::macros::{macro_value, parens_scan, unwrap_parens, wrapped};
use crate::normalize::alias_step;
use crate::parsed::ParsedApi;
use crate::assemble::{aliases_after, api_pairs, named_enums};
use crate::pipeline::{
    context_outcome, cxx_scan, cxxflags, normalize_outcome, record_names, sorted_set_of, trim_blank_tail,
};
use crate::projection::ModelProjectionV;
use crate::source::include_names;
use crate::text::{
    all_digits, decimal, digits_value, ends_with, find, is_ws, matches_at, parse_usize, rfind,
    starts_with, strip_suffix, trim, trim_end, trim_start, trim_start_matches,
};
use crate::types::{is_double_pointer, norm_type, parse_array, unconst};

verus! {

/// A pointer to a pointer is never wrapped: whatever the callback typedefs, such a type is
/// rejected with a message naming it.
pub proof fn law_double_pointers_are_rejected(s: Seq<char>, callbacks: Seq<Seq<char>>)
    requires
        is_double_pointer(trim(s)),
    ensures
        norm_type(s, callbacks) == Err::<IrTypeV, Seq<char>>(
            "unsupported double-pointer type in v1: "@ + trim(s),
        ),
{
}

/// Every module that normalization produces has pairwise distinct C symbols.
pub proof fn law_normalized_symbols_are_unique(
    ctx: PipelineContextV,
    api: ParsedApi,
    m: IrModuleV,
)
    requires
        normalize_outcome(ctx, api, Ok(m)),
    ensures
        symbols_distinct(m.functions),
{
}

proof fn lemma_lookup_push(pairs: Seq<(Seq<char>, Seq<char>)>, x: (Seq<char>, Seq<char>), key: Seq<char>)
    requires
        alias_lookup(pairs, key) is Some,
    ensures
        alias_lookup(pairs.push(x), key) == alias_lookup(pairs, key),
    decreases pairs.len(),
{
    if pairs[0].0 != key {
        lemma_lookup_push(pairs.drop_first(), x, key);
        assert(pairs.push(x).drop_first() =~= pairs.drop_first().push(x));
    }
}

/// Once a model class has a preferred alias, later declarations never replace it: the
/// first alias seen for a class is the one used.
pub proof fn law_preferred_alias_is_kept(
    table: Seq<(Seq<char>, Seq<char>)>,
    pairs: Seq<(Seq<char>, Seq<char>)>,
    key: Seq<char>,
)
    requires
        alias_lookup(table, key) is Some,
    ensures
        alias_lookup(crate::assemble::aliases_after(table, pairs), key) == alias_lookup(table, key),
    decreases pairs.len(),
{
    if pairs.len() > 0 {
        law_preferred_alias_is_kept(table, pairs.drop_last(), key);
        let before = crate::assemble::aliases_after(table, pairs.drop_last());
        let d = pairs.last().0;
        let c = pairs.last().1;
        match (crate::normalize::alias_base(d), crate::normalize::alias_base(c)) {
            (Some(db), Some(cb)) => {
                let p = crate::normalize::preferred_base(db, cb);
                if !(db == cb || p == cb || alias_lookup(before, cb) is Some) {
                    lemma_lookup_push(before, (cb, p), key);
                }
            },
            _ => {},
        }
    }
}

/// A value without `$` is left as it is by environment expansion.
pub proof fn law_expansion_without_dollar_is_identity(
    s: Seq<char>,
    context: Seq<char>,
    env: Seq<EnvVarV>,
)
    requires
        !s.contains('$'),
    ensures
        expand(s, context, env) == Ok::<Seq<char>, Seq<char>>(s),
{
    crate::text::lemma_find_bounds(s, seq!['$']);
    if let Some(i) = find(s, seq!['$']) {
        assert(matches_at(s, seq!['$'], i));
        assert(s.subrange(i, i + 1) =~= seq!['$']);
        assert(s.subrange(i, i + 1)[0] == s[i]);
        assert(seq!['$'][0] == '$');
        assert(s[i] == '$');
    }
}

pub open spec fn exported_flag(a: Seq<char>) -> bool {
    starts_with(a, "-I"@) || starts_with(a, "-D"@) || starts_with(a, "-std="@)
}

/// Each exported flag is an include directory, a define or a language standard, or the
/// value that follows a separate `-I` or `-D`.
pub open spec fn only_exported_flags(out: Seq<Seq<char>>) -> bool {
    forall|k: int|
        0 <= k < out.len() ==> exported_flag(#[trigger] out[k]) || (k > 0 && (out[k - 1] == "-I"@
            || out[k - 1] == "-D"@))
}

proof fn lemma_cxx_scan_flags(raw: Seq<Seq<char>>, i: int)
    ensures
        only_exported_flags(cxx_scan(raw, i)),
        cxx_scan(raw, i).len() > 0 ==> exported_flag(cxx_scan(raw, i)[0]),
    decreases raw.len() - i,
{
    reveal_strlit("-I");
    reveal_strlit("-D");
    if 0 <= i < raw.len() {
        if i + 2 <= raw.len() {
            lemma_cxx_scan_flags(raw, i + 2);
        }
        lemma_cxx_scan_flags(raw, i + 1);
        let a = raw[i];
        let rest2 = if i + 2 <= raw.len() {
            cxx_scan(raw, i + 2)
        } else {
            seq![]
        };
        let out = cxx_scan(raw, i);
        if a == "-I"@ || a == "-D"@ {
            if i + 1 < raw.len() {
                assert(out =~= seq![a, raw[i + 1]] + rest2);
                assert(a.subrange(0, 2) =~= a);
                assert(exported_flag(a));
                assert forall|k: int| 0 <= k < out.len() implies exported_flag(#[trigger] out[k]) || (k
                    > 0 && (out[k - 1] == "-I"@ || out[k - 1] == "-D"@)) by {
                    if k >= 2 {
                        assert(out[k] == rest2[k - 2]);
                        if k > 2 {
                            assert(out[k - 1] == rest2[k - 3]);
                        }
                    }
                }
            }
        } else if a != "-isystem"@ && ((starts_with(a, "-I"@) && a.len() > 2) || (starts_with(
            a,
            "-D"@,
        ) && a.len() > 2) || starts_with(a, "-std="@)) {
            let rest1 = cxx_scan(raw, i + 1);
            assert(out =~= seq![a] + rest1);
            assert forall|k: int| 0 <= k < out.len() implies exported_flag(#[trigger] out[k]) || (k
                > 0 && (out[k - 1] == "-I"@ || out[k - 1] == "-D"@)) by {
                if k >= 1 {
                    assert(out[k] == rest1[k - 1]);
                    if k > 1 {
                        assert(out[k - 1] == rest1[k - 2]);
                    }
                }
            }
        }
    }
}

/// The exported C++ flags of a generated package are only include directories, defines
/// and the language standard (with the values of separate `-I` and `-D` arguments).
pub proof fn law_exported_cxxflags_are_restricted(raw: Seq<Seq<char>>)
    ensures
        only_exported_flags(cxxflags(raw)),
{
    lemma_cxx_scan_flags(raw, 0);
    let rest = cxx_scan(raw, 0);
    let out = cxxflags(raw);
    reveal_strlit("-I${SRCDIR}");
    reveal_strlit("-I");
    assert("-I${SRCDIR}"@.subrange(0, 2) =~= "-I"@);
    assert(starts_with("-I${SRCDIR}"@, "-I"@));
    assert forall|k: int| 0 <= k < out.len() implies exported_flag(#[trigger] out[k]) || (k > 0 && (
    out[k - 1] == "-I"@ || out[k - 1] == "-D"@)) by {
        if k >= 1 {
            assert(out[k] == rest[k - 1]);
            if k > 1 {
                assert(out[k - 1] == rest[k - 2]);
            }
        }
    }
}

/// Trimming trailing blank lines twice is trimming them once.
pub proof fn law_trim_blank_tail_is_idempotent(s: Seq<char>)
    ensures
        trim_blank_tail(trim_blank_tail(s)) == trim_blank_tail(s),
    decreases s.len(),
{
    if s.len() >= 2 && s[s.len() - 1] == '\n' && s[s.len() - 2] == '\n' {
        law_trim_blank_tail_is_idempotent(s.drop_last());
    }
}

/// A generated source includes each header name at most once.
pub proof fn law_include_names_are_distinct(paths: Seq<Seq<char>>)
    ensures
        forall|i: int, j: int|
            0 <= i < j < include_names(paths).len() ==> include_names(paths)[i] != include_names(
                paths,
            )[j],
    decreases paths.len(),
{
    if paths.len() > 0 {
        law_include_names_are_distinct(paths.drop_last());
        let prev = include_names(paths.drop_last());
        let cur = include_names(paths);
        assert forall|i: int, j: int| 0 <= i < j < cur.len() implies cur[i] != cur[j] by {
            if cur.len() > prev.len() {
                assert(cur =~= prev.push(cur.last()));
                if j == cur.len() - 1 {
                    assert(!prev.contains(cur.last()));
                    assert(prev[i] == cur[i]);
                } else {
                    assert(prev[i] == cur[i]);
                    assert(prev[j] == cur[j]);
                }
            } else {
                assert(cur == prev);
            }
        }
    }
}

/// Every model projection that is produced has at least one field.
pub proof fn law_projections_have_fields(
    ctx: PipelineContextV,
    fs: Seq<IrFunctionV>,
    owners: Seq<Seq<char>>,
    ps: Seq<ModelProjectionV>,
)
    requires
        projections_over(ctx, fs, owners) == Ok::<Seq<ModelProjectionV>, Seq<char>>(ps),
    ensures
        forall|k: int| 0 <= k < ps.len() ==> (#[trigger] ps[k]).fields.len() > 0,
    decreases owners.len(),
{
    if owners.len() > 0 {
        match projections_over(ctx, fs, owners.drop_last()) {
            Ok(prev) => {
                law_projections_have_fields(ctx, fs, owners.drop_last(), prev);
            },
            Err(_) => {},
        }
    }
}

/// A synthesized deleter never doubles an owner: its handle has no destructor wrapper and
/// no model projection, and its symbol is not taken by another wrapper.
pub proof fn law_synthesized_deleters_are_the_only_owner(
    ps: Seq<ModelProjectionV>,
    fs: Seq<IrFunctionV>,
    covered: Seq<Seq<char>>,
    owned: Option<Seq<Seq<char>>>,
    hs: Seq<Seq<char>>,
)
    requires
        delete_order(ps, fs, covered, owned, hs),
    ensures
        forall|k: int|
            0 <= k < hs.len() ==> !owned_handle(ps, fs, #[trigger] hs[k]) && !has_symbol(
                fs,
                delete_symbol(hs[k]),
            ) && !covered.contains(hs[k]),
{
    assert forall|k: int| 0 <= k < hs.len() implies !owned_handle(ps, fs, #[trigger] hs[k])
        && !has_symbol(fs, delete_symbol(hs[k])) && !covered.contains(hs[k]) by {
        assert(hs.contains(hs[k]));
    }
}

/// The nesting depth after the first `k` tokens: opening parentheses minus closing ones.
pub open spec fn paren_depth(t: Seq<Seq<char>>, k: int) -> int
    decreases k,
{
    if k <= 0 {
        0
    } else {
        paren_depth(t, k - 1) + if t[k - 1] == "("@ {
            1int
        } else if t[k - 1] == ")"@ {
            -1int
        } else {
            0int
        }
    }
}

/// Balanced tokens: no prefix closes more parentheses than it opens, and the whole
/// closes as many as it opens.
pub open spec fn balanced(t: Seq<Seq<char>>) -> bool {
    &&& forall|k: int| 0 <= k <= t.len() ==> #[trigger] paren_depth(t, k) >= 0
    &&& paren_depth(t, t.len() as int) == 0
}

pub open spec fn parenthesized(t: Seq<Seq<char>>) -> Seq<Seq<char>> {
    seq!["("@] + t + seq![")"@]
}

proof fn lemma_parenthesized_scan(t: Seq<Seq<char>>, i: int)
    requires
        balanced(t),
        1 <= i <= t.len() + 1,
    ensures
        parens_scan(parenthesized(t), i, 1 + paren_depth(t, i - 1)),
    decreases t.len() + 1 - i,
{
    let w = parenthesized(t);
    reveal_strlit("(");
    reveal_strlit(")");
    assert(("("@)[0] == '(' && (")"@)[0] == ')');
    assert("("@ != ")"@);
    let d = 1 + paren_depth(t, i - 1);
    if i == t.len() + 1 {
        assert(w[i] == ")"@);
        assert(paren_depth(t, t.len() as int) == 0);
        assert(parens_scan(w, i + 1, 0));
    } else {
        assert(w[i] == t[i - 1]);
        assert(paren_depth(t, i) >= 0);
        lemma_parenthesized_scan(t, i + 1);
        if t[i - 1] == "("@ {
            assert(paren_depth(t, i) == paren_depth(t, i - 1) + 1);
        } else if t[i - 1] == ")"@ {
            assert(paren_depth(t, i) == paren_depth(t, i - 1) - 1);
        } else {
            assert(paren_depth(t, i) == paren_depth(t, i - 1));
        }
    }
}

/// Wrapping balanced tokens in one more pair of parentheses leaves the macro value as it
/// was: the wrapping pair is stripped before the value is read.
pub proof fn law_extra_parentheses_leave_macro_value(t: Seq<Seq<char>>)
    requires
        t.len() > 0,
        balanced(t),
    ensures
        macro_value(parenthesized(t)) == macro_value(t),
{
    let w = parenthesized(t);
    reveal_strlit("(");
    reveal_strlit(")");
    lemma_parenthesized_scan(t, 1);
    assert(w[0] == "("@);
    assert(parens_scan(w, 0, 0));
    assert(w[w.len() - 1] == ")"@);
    assert(wrapped(w));
    assert(w.subrange(1, w.len() - 1) =~= t);
    assert(unwrap_parens(w) == unwrap_parens(t));
}

proof fn lemma_trim_start_no_longer(s: Seq<char>)
    ensures
        trim_start(s).len() <= s.len(),
    decreases s.len(),
{
    if s.len() > 0 && is_ws(s[0]) {
        lemma_trim_start_no_longer(s.drop_first());
    }
}

proof fn lemma_trim_end_no_longer(s: Seq<char>)
    ensures
        trim_end(s).len() <= s.len(),
    decreases s.len(),
{
    if s.len() > 0 && is_ws(s.last()) {
        lemma_trim_end_no_longer(s.drop_last());
    }
}

/// A non-empty trimmed spelling starts and ends with a non-blank character.
proof fn lemma_trimmed_ends(e: Seq<char>)
    requires
        e.len() > 0,
        trim(e) == e,
    ensures
        !is_ws(e[0]),
        !is_ws(e.last()),
{
    lemma_trim_start_no_longer(e);
    if is_ws(e[0]) {
        lemma_trim_start_no_longer(e.drop_first());
        lemma_trim_end_no_longer(trim_start(e));
    }
    if is_ws(e.last()) {
        if trim_start(e) != e {
            if e.len() > 0 && is_ws(e[0]) {
                lemma_trim_start_no_longer(e.drop_first());
                lemma_trim_end_no_longer(trim_start(e));
            }
        } else {
            lemma_trim_end_no_longer(e.drop_last());
        }
    }
}

/// The decimal spelling of a number is a non-empty run of digits worth that number.
proof fn lemma_decimal_digits(n: nat)
    ensures
        decimal(n).len() > 0,
        all_digits(decimal(n)),
        digits_value(decimal(n)) == n,
    decreases n,
{
    if n >= 10 {
        lemma_decimal_digits(n / 10);
        let x = decimal(n / 10);
        let d = decimal(n);
        assert(d.drop_last() =~= x);
        assert(d.last() as int == (n % 10) + 48);
        assert((n / 10) * 10 + n % 10 == n) by (nonlinear_arith);
        assert(digits_value(d) == digits_value(x) * 10 + ((d.last() as int - 48) as nat));
        assert forall|i: int| 0 <= i < d.len() implies crate::text::is_digit(#[trigger] d[i]) by {
            if i < x.len() {
                assert(d[i] == x[i]);
            }
        }
    } else {
        let d = decimal(n);
        assert(d.drop_last() =~= Seq::<char>::empty());
        assert(digits_value(d.drop_last()) == 0);
        assert(d.last() as int == n + 48);
    }
}

/// Every prefix of `elem[digits]` that goes past the `[` finds that `[` as its last one.
proof fn lemma_last_open_bracket(s: Seq<char>, b: int, j: int)
    requires
        0 <= b < s.len(),
        s[b] == '[',
        forall|i: int| b < i < s.len() ==> s[i] != '[',
        b + 1 <= j <= s.len(),
    ensures
        rfind(s.take(j), seq!['[']) == Some(b),
    decreases j,
{
    let t = s.take(j);
    if j == b + 1 {
        assert(t.subrange(t.len() - 1, t.len() as int) =~= seq!['[']);
    } else {
        assert(t.subrange(t.len() - 1, t.len() as int) != seq!['[']) by {
            assert(t.subrange(t.len() - 1, t.len() as int)[0] == s[j - 1]);
        }
        assert(!ends_with(t, seq!['[']));
        assert(t.drop_last() =~= s.take(j - 1));
        lemma_last_open_bracket(s, b, j - 1);
    }
}

/// An array spelling `elem[n]`, as `format!("{elem}[{n}]")` writes it, reads back as
/// `elem` and `n`: the element and length that `fixed_array_elem_type` and
/// `fixed_array_length` give for it.
pub proof fn law_array_spelling_reads_back(e: Seq<char>, n: usize)
    requires
        e.len() > 0,
        trim(e) == e,
        !starts_with(e, "const "@),
        n >= 1,
    ensures
        parse_array(e + seq!['['] + decimal(n as nat) + seq![']']) == Some((e, n as nat)),
{
    let d = decimal(n as nat);
    let s = e + seq!['['] + d + seq![']'];
    let b = e.len() as int;
    lemma_decimal_digits(n as nat);
    lemma_trimmed_ends(e);
    reveal_strlit("const ");
    reveal_strlit("]");
    // the whole spelling is already trimmed and has no `const ` in front
    assert(s[0] == e[0]);
    assert(s.last() == ']');
    assert(trim_start(s) == s);
    assert(trim_end(s) == s);
    assert(trim(s) == s);
    assert(!starts_with(s, "const "@)) by {
        if e.len() >= 6 {
            assert(s.subrange(0, 6) =~= e.subrange(0, 6));
        } else {
            if starts_with(s, "const "@) {
                assert(s.subrange(0, 6)[b] == s[b]);
                assert(("const "@)[b] != '[');
            }
        }
    }
    assert(trim_start_matches(s, "const "@) == s);
    assert(unconst(s) == s);
    // the last `[` is the one after the element
    assert forall|i: int| b < i < s.len() implies s[i] != '[' by {
        if i < s.len() - 1 {
            assert(s[i] == d[i - b - 1]);
            assert(crate::text::is_digit(d[i - b - 1]));
        }
    }
    assert(s.take(s.len() as int) =~= s);
    lemma_last_open_bracket(s, b, s.len() as int);
    assert(s.take(b) =~= e);
    // the length between the brackets
    let tail = s.skip(b + 1);
    assert(tail =~= d + seq![']']);
    assert(tail.subrange(tail.len() - 1, tail.len() as int) =~= "]"@);
    assert(strip_suffix(tail, "]"@) == Some(d)) by {
        assert(tail.take(tail.len() - 1) =~= d);
    }
    assert(crate::text::is_digit(d[0]) && crate::text::is_digit(d.last()));
    assert(trim_start(d) == d);
    assert(trim_end(d) == d);
    assert(d[0] != '+');
    assert(parse_usize(trim(d)) == Some(n as nat));
}

/// A prepared context keeps the configuration, Go module path, target header and raw
/// clang arguments it was built from; its known model types are the sorted distinct
/// qualified record names of the parsed API, its known enum types those of the named
/// enums, and its preferred aliases those the parsed API declares.
pub proof fn law_prepared_context_keeps_settings(
    ctx: PipelineContextV,
    api: ParsedApi,
    mt: Seq<Seq<char>>,
    et: Seq<Seq<char>>,
    nr: Result<IrModuleV, Seq<char>>,
    c: PipelineContextV,
)
    requires
        context_outcome(ctx, api, mt, et, nr, Ok(c)),
    ensures
        c.config == ctx.config,
        c.go_module == ctx.go_module,
        c.target_header == ctx.target_header,
        c.raw_clang_args == ctx.raw_clang_args,
        sorted_set_of(record_names(api.records@), c.known_model_types),
        sorted_set_of(named_enums(api.enums@), c.known_enum_types),
        c.preferred_model_aliases == aliases_after(seq![], api_pairs(api)),
{
}

} // verus!
