//! `$VAR`, `${VAR}` and `$(VAR)` references in configuration values, expanded against a
//! snapshot of the process environment.
use vstd::prelude::*;

use crate::text::{
    char_is_alnum, char_is_alpha, chars_of, find, find_char, is_alnum, is_alpha,
    lemma_find_bounds, push_chars, push_str, slice_vec, starts_with, starts_with_lit,
    string_of,
};

verus! {

/// One variable of the environment; `value` is `None` where it is not valid Unicode.
#[derive(Debug, Clone)]
pub struct EnvVar {
    pub name: String,
    pub value: Option<String>,
}

pub struct EnvVarV {
    pub name: Seq<char>,
    pub value: Option<Seq<char>>,
}

pub open spec fn env_view(env: Seq<EnvVar>) -> Seq<EnvVarV> {
    env.map_values(|e: EnvVar| EnvVarV { name: e.name@, value: crate::ir::opt_view(e.value) })
}

/// What looking a name up in the environment gives.
pub enum Lookup {
    Missing,
    NotUnicode,
    Found(Seq<char>),
}

/// The first entry with the name decides.
pub open spec fn env_lookup(env: Seq<EnvVarV>, name: Seq<char>) -> Lookup
    decreases env.len(),
{
    if env.len() == 0 {
        Lookup::Missing
    } else if env[0].name == name {
        match env[0].value {
            Some(v) => Lookup::Found(v),
            None => Lookup::NotUnicode,
        }
    } else {
        env_lookup(env.drop_first(), name)
    }
}

pub open spec fn is_name_char(c: char) -> bool {
    is_alnum(c) || c == '_'
}

/// A variable name: an ASCII letter or `_`, then ASCII letters, digits and `_`.
pub open spec fn valid_name(s: Seq<char>) -> bool {
    s.len() > 0 && (is_alpha(s[0]) || s[0] == '_') && forall|i: int|
        1 <= i < s.len() ==> is_name_char(#[trigger] s[i])
}

/// Length of the longest prefix of name characters.
pub open spec fn name_prefix_len(s: Seq<char>) -> nat
    decreases s.len(),
{
    if s.len() > 0 && is_name_char(s[0]) {
        1 + name_prefix_len(s.drop_first())
    } else {
        0
    }
}

pub proof fn lemma_name_prefix_len(s: Seq<char>)
    ensures
        name_prefix_len(s) <= s.len(),
        forall|i: int| 0 <= i < name_prefix_len(s) ==> is_name_char(#[trigger] s[i]),
        name_prefix_len(s) < s.len() ==> !is_name_char(s[name_prefix_len(s) as int]),
    decreases s.len(),
{
    if s.len() > 0 && is_name_char(s[0]) {
        lemma_name_prefix_len(s.drop_first());
        assert forall|i: int| 0 <= i < name_prefix_len(s) implies is_name_char(#[trigger] s[i]) by {
            if i > 0 {
                assert(s[i] == s.drop_first()[i - 1]);
            }
        }
    }
}

pub open spec fn not_set_message(name: Seq<char>, context: Seq<char>) -> Seq<char> {
    "environment variable `"@ + name + "` referenced in "@ + context + " is not set"@
}

pub open spec fn not_unicode_message(name: Seq<char>, context: Seq<char>) -> Seq<char> {
    "environment variable `"@ + name + "` referenced in "@ + context + " is not valid unicode"@
}

/// The outcome of reading one reference at a `$`.
pub enum Step {
    /// Replace the first `len` characters by `value`.
    Replace(Seq<char>, int),
    Fail(Seq<char>),
    /// Not a reference: the `$` stays as it is.
    Keep,
}

pub open spec fn lookup_step(
    name: Seq<char>,
    len: int,
    context: Seq<char>,
    env: Seq<EnvVarV>,
) -> Step {
    match env_lookup(env, name) {
        Lookup::Found(v) => Step::Replace(v, len),
        Lookup::Missing => Step::Fail(not_set_message(name, context)),
        Lookup::NotUnicode => Step::Fail(not_unicode_message(name, context)),
    }
}

/// `${NAME}` (with `open == '{'`) or `$(NAME)` (with `open == '('`) at the start of `r`.
pub open spec fn delimited_step(
    r: Seq<char>,
    open: char,
    close: char,
    context: Seq<char>,
    env: Seq<EnvVarV>,
) -> Option<Step> {
    if r.len() >= 2 && r[0] == '$' && r[1] == open {
        let inner = r.skip(2);
        match find(inner, seq![close]) {
            Some(end) => if valid_name(inner.take(end)) {
                Some(lookup_step(inner.take(end), end + 3, context, env))
            } else {
                None
            },
            None => None,
        }
    } else {
        None
    }
}

/// The reference at the `$` that starts `r`: braces, then parentheses, then a bare name.
pub open spec fn dollar_step(r: Seq<char>, context: Seq<char>, env: Seq<EnvVarV>) -> Step {
    match delimited_step(r, '{', '}', context, env) {
        Some(s) => s,
        None => match delimited_step(r, '(', ')', context, env) {
            Some(s) => s,
            None => {
                let tail = r.skip(1);
                let n = name_prefix_len(tail);
                if valid_name(tail.take(n as int)) {
                    lookup_step(tail.take(n as int), n + 1int, context, env)
                } else {
                    Step::Keep
                }
            },
        },
    }
}

pub proof fn lemma_dollar_step_len(r: Seq<char>, context: Seq<char>, env: Seq<EnvVarV>)
    requires
        r.len() >= 1,
    ensures
        dollar_step(r, context, env) matches Step::Replace(_, n) ==> 1 <= n <= r.len(),
{
    lemma_name_prefix_len(r.skip(1));
    lemma_find_bounds(r.skip(2), seq!['}']);
    lemma_find_bounds(r.skip(2), seq![')']);
}

/// Every reference in `s` replaced by its value, scanning from the left; the first
/// reference to a variable that is unset or not Unicode is an error.
pub open spec fn expand(s: Seq<char>, context: Seq<char>, env: Seq<EnvVarV>) -> Result<
    Seq<char>,
    Seq<char>,
>
    decreases s.len(),
{
    match find(s, seq!['$']) {
        None => Ok(s),
        Some(d) => {
            proof {
                lemma_find_bounds(s, seq!['$']);
            }
            let r = s.skip(d);
            proof {
                lemma_dollar_step_len(r, context, env);
            }
            match dollar_step(r, context, env) {
                Step::Fail(m) => Err(m),
                Step::Replace(v, n) => match expand(r.skip(n), context, env) {
                    Ok(t) => Ok(s.take(d) + v + t),
                    Err(e) => Err(e),
                },
                Step::Keep => match expand(r.skip(1), context, env) {
                    Ok(t) => Ok(s.take(d) + seq!['$'] + t),
                    Err(e) => Err(e),
                },
            }
        },
    }
}

/// `prefix` put before the expansion of the rest.
pub open spec fn prepend(prefix: Seq<char>, rest: Result<Seq<char>, Seq<char>>) -> Result<
    Seq<char>,
    Seq<char>,
> {
    match rest {
        Ok(t) => Ok(prefix + t),
        Err(e) => Err(e),
    }
}

pub fn valid_env_name(value: &[char]) -> (b: bool)
    ensures
        b == valid_name(value@),
{
    if value.len() == 0 {
        return false;
    }
    let first = value[0];
    if !(char_is_alpha(first) || first == '_') {
        return false;
    }
    let mut i: usize = 1;
    while i < value.len()
        invariant
            1 <= i <= value.len(),
            forall|k: int| 1 <= k < i ==> is_name_char(#[trigger] value@[k]),
        decreases value.len() - i,
    {
        let c = value[i];
        if !(char_is_alnum(c) || c == '_') {
            return false;
        }
        i = i + 1;
    }
    true
}

fn name_prefix_length(s: &[char]) -> (n: usize)
    ensures
        n == name_prefix_len(s@),
{
    proof {
        lemma_name_prefix_len(s@);
    }
    let mut i: usize = 0;
    while i < s.len() && (char_is_alnum(s[i]) || s[i] == '_')
        invariant
            i <= s.len(),
            i <= name_prefix_len(s@),
            forall|k: int| 0 <= k < i ==> is_name_char(#[trigger] s@[k]),
            name_prefix_len(s@) <= s.len(),
            forall|k: int| 0 <= k < name_prefix_len(s@) ==> is_name_char(#[trigger] s@[k]),
            name_prefix_len(s@) < s.len() ==> !is_name_char(s@[name_prefix_len(s@) as int]),
        decreases s.len() - i,
    {
        i = i + 1;
    }
    i
}

/// Exec form of `Lookup`.
pub enum LookupResult {
    Missing,
    NotUnicode,
    Found(String),
}

pub fn lookup_env(env: &Vec<EnvVar>, name: &[char]) -> (r: LookupResult)
    ensures
        match env_lookup(env_view(env@), name@) {
            Lookup::Missing => r is Missing,
            Lookup::NotUnicode => r is NotUnicode,
            Lookup::Found(v) => r matches LookupResult::Found(s) && s@ == v,
        },
{
    let mut i: usize = 0;
    assert(env_view(env@).skip(0) =~= env_view(env@));
    while i < env.len()
        invariant
            i <= env.len(),
            env_lookup(env_view(env@), name@) == env_lookup(env_view(env@).skip(i as int), name@),
        decreases env.len() - i,
    {
        assert(env_view(env@).skip(i as int).drop_first() =~= env_view(env@).skip(i + 1));
        let n = chars_of(env[i].name.as_str());
        if crate::text::seq_eq(n.as_slice(), name) {
            return match &env[i].value {
                Some(v) => LookupResult::Found(v.clone()),
                None => LookupResult::NotUnicode,
            };
        }
        i = i + 1;
    }
    LookupResult::Missing
}

fn failure_message(name: &[char], context: &str, tail: &str) -> (r: String)
    ensures
        r@ == "environment variable `"@ + name@ + "` referenced in "@ + context@ + tail@,
{
    let mut m = String::from_str("environment variable `");
    push_chars(&mut m, name);
    push_str(&mut m, "` referenced in ");
    push_str(&mut m, context);
    push_str(&mut m, tail);
    m
}

/// Exec form of `Step`.
pub enum StepResult {
    Replace(String, usize),
    Fail(String),
    Keep,
}

pub open spec fn step_matches(r: StepResult, s: Step) -> bool {
    match s {
        Step::Replace(v, n) => r matches StepResult::Replace(x, m) && x@ == v && m == n,
        Step::Fail(e) => r matches StepResult::Fail(x) && x@ == e,
        Step::Keep => r is Keep,
    }
}

fn lookup_step_exec(name: &[char], len: usize, context: &str, env: &Vec<EnvVar>) -> (r:
    StepResult)
    ensures
        step_matches(r, lookup_step(name@, len as int, context@, env_view(env@))),
{
    match lookup_env(env, name) {
        LookupResult::Found(v) => StepResult::Replace(v, len),
        LookupResult::Missing => StepResult::Fail(failure_message(name, context, " is not set")),
        LookupResult::NotUnicode => StepResult::Fail(
            failure_message(name, context, " is not valid unicode"),
        ),
    }
}

fn delimited_step_exec(
    r: &[char],
    open: char,
    close: char,
    context: &str,
    env: &Vec<EnvVar>,
) -> (res: Option<StepResult>)
    ensures
        match delimited_step(r@, open, close, context@, env_view(env@)) {
            Some(s) => res is Some && step_matches(res->0, s),
            None => res is None,
        },
{
    if r.len() >= 2 && r[0] == '$' && r[1] == open {
        let inner = slice_vec(r, 2, r.len());
        assert(inner@ =~= r@.skip(2));
        proof {
            lemma_find_bounds(inner@, seq![close]);
        }
        match find_char(inner.as_slice(), close) {
            Some(end) => {
                let name = slice_vec(inner.as_slice(), 0, end);
                assert(name@ =~= inner@.take(end as int));
                if valid_env_name(name.as_slice()) {
                    Some(lookup_step_exec(name.as_slice(), end + 3, context, env))
                } else {
                    None
                }
            },
            None => None,
        }
    } else {
        None
    }
}

fn dollar_step_exec(r: &[char], context: &str, env: &Vec<EnvVar>) -> (res: StepResult)
    requires
        r.len() >= 1,
    ensures
        step_matches(res, dollar_step(r@, context@, env_view(env@))),
{
    match delimited_step_exec(r, '{', '}', context, env) {
        Some(s) => return s,
        None => {},
    }
    match delimited_step_exec(r, '(', ')', context, env) {
        Some(s) => return s,
        None => {},
    }
    let tail = slice_vec(r, 1, r.len());
    assert(tail@ =~= r@.skip(1));
    let n = name_prefix_length(tail.as_slice());
    proof {
        lemma_name_prefix_len(tail@);
    }
    let name = slice_vec(tail.as_slice(), 0, n);
    assert(name@ =~= tail@.take(n as int));
    if valid_env_name(name.as_slice()) {
        lookup_step_exec(name.as_slice(), n + 1, context, env)
    } else {
        StepResult::Keep
    }
}

/// Expands every `${VAR}`, `$(VAR)` and `$VAR` in `value` from `env`; a `$` that starts
/// no valid name stays. `context` names the setting in the error message.
pub fn expand_env_vars_in_str(value: &str, context: &str, env: &Vec<EnvVar>) -> (r: Result<
    String,
    String,
>)
    ensures
        match expand(value@, context@, env_view(env@)) {
            Ok(s) => r is Ok && r->Ok_0@ == s,
            Err(e) => r is Err && r->Err_0@ == e,
        },
{
    let v = chars_of(value);
    let ghost ev = env_view(env@);
    let mut out = String::new();
    let mut i: usize = 0;
    assert(v@.skip(0) =~= v@);
    assert(out@ + v@ =~= v@);
    while i < v.len()
        invariant
            i <= v.len(),
            v@ == value@,
            ev == env_view(env@),
            expand(v@, context@, ev) == prepend(out@, expand(v@.skip(i as int), context@, ev)),
        decreases v.len() - i,
    {
        let rest = slice_vec(v.as_slice(), i, v.len());
        assert(rest@ =~= v@.skip(i as int));
        proof {
            lemma_find_bounds(rest@, seq!['$']);
        }
        match find_char(rest.as_slice(), '$') {
            None => {
                push_chars(&mut out, rest.as_slice());
                assert(v@.skip(v.len() as int) =~= Seq::<char>::empty());
                assert(out@ + Seq::<char>::empty() =~= out@);
                i = v.len();
            },
            Some(d) => {
                let r = slice_vec(rest.as_slice(), d, rest.len());
                assert(r@ =~= rest@.skip(d as int));
                let pre = slice_vec(rest.as_slice(), 0, d);
                assert(pre@ =~= rest@.take(d as int));
                proof {
                    lemma_dollar_step_len(r@, context@, ev);
                }
                let ghost before = out@;
                match dollar_step_exec(r.as_slice(), context, env) {
                    StepResult::Fail(m) => {
                        assert(expand(rest@, context@, ev) == Err::<Seq<char>, Seq<char>>(m@));
                        assert(expand(v@, context@, ev) == Err::<Seq<char>, Seq<char>>(m@));
                        return Err(m);
                    },
                    StepResult::Replace(val, n) => {
                        push_chars(&mut out, pre.as_slice());
                        push_str(&mut out, val.as_str());
                        assert(r@.skip(n as int) =~= v@.skip(i + d + n));
                        assert(out@ =~= before + pre@ + val@);
                        proof {
                            match expand(r@.skip(n as int), context@, ev) {
                                Ok(t) => {
                                    assert(before + (pre@ + val@ + t) =~= out@ + t);
                                },
                                Err(_) => {},
                            }
                        }
                        i = i + d + n;
                    },
                    StepResult::Keep => {
                        push_chars(&mut out, pre.as_slice());
                        push_str(&mut out, "$");
                        proof {
                            reveal_strlit("$");
                        }
                        assert(r@.skip(1) =~= v@.skip(i + d + 1));
                        assert(out@ =~= before + pre@ + seq!['$']);
                        proof {
                            match expand(r@.skip(1), context@, ev) {
                                Ok(t) => {
                                    assert(before + (pre@ + seq!['$'] + t) =~= out@ + t);
                                },
                                Err(_) => {},
                            }
                        }
                        i = i + d + 1;
                    },
                }
            },
        }
    }
    assert(v@.skip(i as int) =~= Seq::<char>::empty());
    assert(out@ + Seq::<char>::empty() =~= out@);
    Ok(out)
}

} // verus!
