//! Normal forms of what the C++ front end reports: type spellings and integer macro
//! bodies.
use vstd::prelude::*;

use crate::case::vviews;
use crate::macros::{is_integer_literal, is_supported_integer_literal};
use crate::text::{
    chars_of, find, is_ws, join, matches_at, matches_at_exec, push_chars, slice_vec, starts_with, strip_prefix, strip_prefix_lit,
    string_of, trim, trim_end, trim_start, trim_vec,
};

verus! {

/// Every non-overlapping occurrence of `p` (searched from the left) replaced by `r`.
pub open spec fn replace_all(s: Seq<char>, p: Seq<char>, r: Seq<char>) -> Seq<char>
    decreases s.len(),
{
    if s.len() == 0 || p.len() == 0 {
        s
    } else if starts_with(s, p) {
        r + replace_all(s.skip(p.len() as int), p, r)
    } else {
        seq![s[0]] + replace_all(s.drop_first(), p, r)
    }
}

fn replace_all_vec(s: &[char], p: &[char], r: &[char]) -> (out: Vec<char>)
    requires
        p@.len() > 0,
    ensures
        out@ == replace_all(s@, p@, r@),
{
    let mut out: Vec<char> = Vec::new();
    let mut i: usize = 0;
    assert(s@.skip(0) =~= s@);
    while i < s.len()
        invariant
            i <= s.len(),
            p@.len() > 0,
            replace_all(s@, p@, r@) == out@ + replace_all(s@.skip(i as int), p@, r@),
        decreases s.len() - i,
    {
        let hit = matches_at_exec(s, p, i);
        if p.len() <= s.len() - i {
            assert(s@.skip(i as int).subrange(0, p@.len() as int) =~= s@.subrange(
                i as int,
                i + p@.len(),
            ));
        }
        let ghost before = out@;
        if hit {
            assert(s@.skip(i as int).skip(p@.len() as int) =~= s@.skip(i + p@.len()));
            let mut k: usize = 0;
            while k < r.len()
                invariant
                    k <= r.len(),
                    out@ == before + r@.take(k as int),
                decreases r.len() - k,
            {
                out.push(r[k]);
                assert(r@.take(k + 1) =~= r@.take(k as int).push(r@[k as int]));
                k = k + 1;
            }
            assert(r@.take(k as int) =~= r@);
            assert(out@ + replace_all(s@.skip(i + p@.len()), p@, r@) =~= before + (r@ + replace_all(
                s@.skip(i + p@.len()),
                p@,
                r@,
            )));
            i = i + p.len();
        } else {
            assert(s@.skip(i as int).drop_first() =~= s@.skip(i + 1));
            out.push(s[i]);
            assert(out@ + replace_all(s@.skip(i + 1), p@, r@) =~= before + (seq![s@[i as int]]
                + replace_all(s@.skip(i + 1), p@, r@)));
            i = i + 1;
        }
    }
    assert(out@ + replace_all(s@.skip(i as int), p@, r@) =~= out@);
    out
}

pub open spec fn words_from(s: Seq<char>, start: int, i: int) -> Seq<Seq<char>>
    decreases s.len() - i,
{
    if i >= s.len() {
        if start < s.len() {
            seq![s.subrange(start, s.len() as int)]
        } else {
            seq![]
        }
    } else if is_ws(s[i]) {
        (if start < i {
            seq![s.subrange(start, i)]
        } else {
            seq![]
        }) + words_from(s, i + 1, i + 1)
    } else {
        words_from(s, start, i + 1)
    }
}

/// `str::split_whitespace`
pub open spec fn words(s: Seq<char>) -> Seq<Seq<char>> {
    words_from(s, 0, 0)
}

fn words_vec(s: &[char]) -> (r: Vec<Vec<char>>)
    ensures
        vviews(r@) == words(s@),
{
    let mut out: Vec<Vec<char>> = Vec::new();
    let mut start: usize = 0;
    let mut i: usize = 0;
    while i < s.len()
        invariant
            start <= i <= s.len(),
            vviews(out@) + words_from(s@, start as int, i as int) == words(s@),
        decreases s.len() - i,
    {
        if crate::text::char_is_ws(s[i]) {
            let ghost before = out@;
            if start < i {
                let w = slice_vec(s, start, i);
                out.push(w);
                assert(vviews(out@) =~= vviews(before).push(w@));
            } else {
                assert(vviews(out@) =~= vviews(before));
            }
            assert(vviews(out@) + words_from(s@, i + 1, i + 1) =~= vviews(before) + ((if start
                < i {
                seq![s@.subrange(start as int, i as int)]
            } else {
                seq![]
            }) + words_from(s@, i + 1, i + 1)));
            start = i + 1;
        }
        i = i + 1;
    }
    let ghost before = out@;
    if start < s.len() {
        let w = slice_vec(s, start, s.len());
        out.push(w);
        assert(vviews(out@) =~= vviews(before).push(w@));
    } else {
        assert(vviews(out@) =~= vviews(before) + words_from(s@, start as int, i as int));
    }
    out
}

/// The normal spelling of a type: whitespace runs collapsed, no space before `&` or `*`,
/// none after `*` or `<` or before `>`, trimmed.
pub open spec fn canonical_type_name(v: Seq<char>) -> Seq<char> {
    trim(
        replace_all(
            replace_all(
                replace_all(
                    replace_all(replace_all(join(words(v), " "@), " &"@, "&"@), "* "@, "*"@),
                    " *"@,
                    "*"@,
                ),
                "< "@,
                "<"@,
            ),
            " >"@,
            ">"@,
        ),
    )
}

fn replace_lit(s: &[char], p: &str, r: &str) -> (out: Vec<char>)
    requires
        p@.len() > 0,
    ensures
        out@ == replace_all(s@, p@, r@),
{
    let pv = chars_of(p);
    let rv = chars_of(r);
    replace_all_vec(s, pv.as_slice(), rv.as_slice())
}

pub fn canonicalize_type_name(value: &str) -> (r: String)
    ensures
        r@ == canonical_type_name(value@),
{
    let v = chars_of(value);
    let ws = words_vec(v.as_slice());
    let mut joined: Vec<char> = Vec::new();
    let ghost parts = vviews(ws@);
    let mut i: usize = 0;
    proof {
        reveal_strlit(" ");
    }
    while i < ws.len()
        invariant
            i <= ws.len(),
            parts == vviews(ws@),
            joined@ == join(parts.take(i as int), " "@),
            " "@ == seq![' '],
        decreases ws.len() - i,
    {
        if i > 0 {
            joined.push(' ');
        }
        let w = &ws[i];
        let mut k: usize = 0;
        let ghost before = joined@;
        while k < w.len()
            invariant
                k <= w.len(),
                joined@ == before + w@.take(k as int),
            decreases w.len() - k,
        {
            joined.push(w[k]);
            assert(w@.take(k + 1) =~= w@.take(k as int).push(w@[k as int]));
            k = k + 1;
        }
        assert(w@.take(k as int) =~= w@);
        proof {
            assert(parts[i as int] == w@);
            if i > 0 {
                assert(parts.take(i + 1).drop_last() =~= parts.take(i as int));
                assert(joined@ =~= join(parts.take(i as int), " "@) + " "@ + parts[i as int]);
            } else {
                assert(parts.take(1) =~= seq![parts[0]]);
                assert(joined@ =~= parts[0]);
            }
        }
        i = i + 1;
    }
    assert(parts.take(i as int) =~= parts);
    proof {
        reveal_strlit(" &");
        reveal_strlit("* ");
        reveal_strlit(" *");
        reveal_strlit("< ");
        reveal_strlit(" >");
    }
    let a = replace_lit(joined.as_slice(), " &", "&");
    let b = replace_lit(a.as_slice(), "* ", "*");
    let c = replace_lit(b.as_slice(), " *", "*");
    let d = replace_lit(c.as_slice(), "< ", "<");
    let e = replace_lit(d.as_slice(), " >", ">");
    let t = trim_vec(e.as_slice());
    string_of(t.as_slice())
}

pub proof fn lemma_trim_len(s: Seq<char>)
    ensures
        trim(s).len() <= s.len(),
{
    lemma_trim_start_len(s);
    lemma_trim_end_len(trim_start(s));
}

proof fn lemma_trim_start_len(s: Seq<char>)
    ensures
        trim_start(s).len() <= s.len(),
    decreases s.len(),
{
    if s.len() > 0 && is_ws(s[0]) {
        lemma_trim_start_len(s.drop_first());
    }
}

proof fn lemma_trim_end_len(s: Seq<char>)
    ensures
        trim_end(s).len() <= s.len(),
    decreases s.len(),
{
    if s.len() > 0 && is_ws(s.last()) {
        lemma_trim_end_len(s.drop_last());
    }
}

/// Whether parentheses balance over `v` from position `i` at nesting `depth`, without the
/// outermost pair closing before the end.
pub open spec fn wrap_scan(v: Seq<char>, i: int, depth: int) -> bool
    decreases v.len() - i,
{
    if i >= v.len() || i < 0 {
        depth == 0
    } else if v[i] == '(' {
        wrap_scan(v, i + 1, depth + 1)
    } else if v[i] == ')' {
        if depth <= 0 {
            false
        } else if depth - 1 == 0 && i != v.len() - 1 {
            false
        } else {
            wrap_scan(v, i + 1, depth - 1)
        }
    } else {
        wrap_scan(v, i + 1, depth)
    }
}

/// The inside of one pair of parentheses that wraps all of `v`.
pub open spec fn strip_wrap(v: Seq<char>) -> Option<Seq<char>> {
    if v.len() >= 2 && v[0] == '(' && v.last() == ')' && wrap_scan(v, 0, 0) {
        Some(v.subrange(1, v.len() - 1))
    } else {
        None
    }
}

/// `v` with all wrapping parentheses removed, trimming inside each.
pub open spec fn unwrap_parens(v: Seq<char>) -> Seq<char>
    decreases v.len(),
{
    match strip_wrap(v) {
        Some(inner) => {
            proof {
                lemma_trim_len(inner);
            }
            unwrap_parens(trim(inner))
        },
        None => v,
    }
}

/// The integer literal a macro expands to, if its body is one (possibly parenthesized).
pub open spec fn macro_integer(value: Seq<char>) -> Option<Seq<char>> {
    let t = trim(value);
    if t.len() == 0 {
        None
    } else {
        let u = unwrap_parens(t);
        if is_integer_literal(u) {
            Some(u)
        } else {
            None
        }
    }
}

fn strip_wrapping_parentheses(v: &[char]) -> (r: Option<Vec<char>>)
    ensures
        match strip_wrap(v@) {
            Some(inner) => r is Some && r->0@ == inner,
            None => r is None,
        },
{
    if v.len() < 2 || v[0] != '(' || v[v.len() - 1] != ')' {
        return None;
    }
    let mut depth: usize = 0;
    let mut i: usize = 0;
    while i < v.len()
        invariant
            i <= v.len(),
            depth <= i,
            wrap_scan(v@, 0, 0) == wrap_scan(v@, i as int, depth as int),
        decreases v.len() - i,
    {
        if v[i] == '(' {
            depth = depth + 1;
        } else if v[i] == ')' {
            if depth == 0 {
                return None;
            }
            if depth - 1 == 0 && i != v.len() - 1 {
                return None;
            }
            depth = depth - 1;
        }
        i = i + 1;
    }
    if depth == 0 {
        Some(slice_vec(v, 1, v.len() - 1))
    } else {
        None
    }
}

/// The integer literal a macro body denotes, parentheses removed; none for anything else.
pub fn normalize_macro_integer_literal(value: &str) -> (r: Option<String>)
    ensures
        match macro_integer(value@) {
            Some(s) => r is Some && r->0@ == s,
            None => r is None,
        },
{
    let v = chars_of(value);
    let t = trim_vec(v.as_slice());
    if t.len() == 0 {
        return None;
    }
    let ghost tv = t@;
    let mut cur = t;
    loop
        invariant
            unwrap_parens(cur@) == unwrap_parens(trim(value@)),
        ensures
            unwrap_parens(cur@) == unwrap_parens(trim(value@)),
            strip_wrap(cur@) is None,
        decreases cur.len(),
    {
        match strip_wrapping_parentheses(cur.as_slice()) {
            Some(inner) => {
                proof {
                    lemma_trim_len(inner@);
                }
                cur = trim_vec(inner.as_slice());
            },
            None => break,
        }
    }
    assert(unwrap_parens(cur@) == cur@);
    assert(trim(value@) == tv);
    if is_supported_integer_literal(cur.as_slice()) {
        Some(string_of(cur.as_slice()))
    } else {
        None
    }
}

} // verus!

verus! {

/// The file named by a `#include "..."` line.
pub open spec fn quoted_include(t: Seq<char>) -> Option<Seq<char>> {
    match strip_prefix(trim_start(t), "#include"@) {
        None => None,
        Some(rest) => match strip_prefix(trim_start(rest), "\""@) {
            None => None,
            Some(inner) => match find(inner, "\""@) {
                None => None,
                Some(end) => Some(inner.take(end)),
            },
        },
    }
}

/// Whether a trimmed line is skipped before the first declaration: blank, `#pragma once`
/// or a comment line.
pub open spec fn skipped_line(t: Seq<char>) -> bool {
    t.len() == 0 || t == "#pragma once"@ || starts_with(t, "//"@) || starts_with(t, "/*"@)
        || starts_with(t, "*"@) || starts_with(t, "*/"@)
}

/// The quoted includes in the directive block at the top of a file, in order: the scan
/// stops at the first line that is not blank, a comment or a preprocessor directive.
pub open spec fn leading_includes(lines: Seq<Seq<char>>) -> Seq<Seq<char>>
    decreases lines.len(),
{
    if lines.len() == 0 {
        seq![]
    } else {
        let t = trim(lines[0]);
        if skipped_line(t) {
            leading_includes(lines.drop_first())
        } else {
            match quoted_include(t) {
                Some(inc) => seq![inc] + leading_includes(lines.drop_first()),
                None => if starts_with(t, "#"@) {
                    leading_includes(lines.drop_first())
                } else {
                    seq![]
                },
            }
        }
    }
}

fn quoted_include_of(t: &[char]) -> (r: Option<Vec<char>>)
    ensures
        match quoted_include(t@) {
            Some(n) => r is Some && r->0@ == n,
            None => r is None,
        },
{
    let i = crate::text::trim_start_index(t);
    let t1 = slice_vec(t, i, t.len());
    assert(t1@ =~= t@.skip(i as int));
    let rest = match strip_prefix_lit(t1.as_slice(), "#include") {
        Some(r) => r,
        None => return None,
    };
    let j = crate::text::trim_start_index(rest.as_slice());
    let rest2 = slice_vec(rest.as_slice(), j, rest.len());
    assert(rest2@ =~= rest@.skip(j as int));
    let inner = match strip_prefix_lit(rest2.as_slice(), "\"") {
        Some(r) => r,
        None => return None,
    };
    let q = chars_of("\"");
    proof {
        crate::text::lemma_find_bounds(inner@, "\""@);
    }
    match crate::text::find_exec(inner.as_slice(), q.as_slice()) {
        Some(end) => {
            assert(end <= inner.len());
            Some(slice_vec(inner.as_slice(), 0, end))
        },
        None => None,
    }
}

/// The local headers quoted in the leading directive block of `contents`.
pub fn leading_local_includes(contents: &str) -> (r: Vec<String>)
    ensures
        crate::ir::strs(r@) == leading_includes(crate::case::segments(contents@, '\n')),
{
    let v = chars_of(contents);
    let lines = crate::case::segments_vec(v.as_slice(), '\n');
    let ghost ls = vviews(lines@);
    let mut out: Vec<String> = Vec::new();
    let mut i: usize = 0;
    assert(ls.skip(0) =~= ls);
    assert(crate::ir::strs(out@) + leading_includes(ls) =~= leading_includes(ls));
    while i < lines.len()
        invariant_except_break
            i <= lines.len(),
            ls == vviews(lines@),
            crate::ir::strs(out@) + leading_includes(ls.skip(i as int)) == leading_includes(ls),
        ensures
            crate::ir::strs(out@) == leading_includes(ls),
        decreases lines.len() - i,
    {
        let t = trim_vec(lines[i].as_slice());
        let ghost rest = ls.skip(i + 1);
        assert(ls.skip(i as int).drop_first() =~= rest);
        assert(ls.skip(i as int)[0] == lines@[i as int]@);
        let s = t.as_slice();
        let skip = s.len() == 0 || crate::text::eq_lit(s, "#pragma once") || crate::text::starts_with_lit(s, "//")
            || crate::text::starts_with_lit(s, "/*") || crate::text::starts_with_lit(s, "*")
            || crate::text::starts_with_lit(s, "*/");
        if !skip {
            match quoted_include_of(s) {
                Some(inc) => {
                    let ghost before = crate::ir::strs(out@);
                    out.push(string_of(inc.as_slice()));
                    assert(crate::ir::strs(out@) =~= before.push(inc@));
                    assert(crate::ir::strs(out@) + leading_includes(rest) =~= before + (seq![inc@]
                        + leading_includes(rest)));
                },
                None => {
                    if !crate::text::starts_with_lit(s, "#") {
                        assert(crate::ir::strs(out@) + Seq::<Seq<char>>::empty() =~= crate::ir::strs(out@));
                        break;
                    }
                },
            }
        }
        i = i + 1;
        proof {
            if i == lines.len() {
                assert(ls.skip(i as int) =~= Seq::<Seq<char>>::empty());
                assert(crate::ir::strs(out@) + Seq::<Seq<char>>::empty() =~= crate::ir::strs(out@));
            }
        }
    }
    out
}

} // verus!
