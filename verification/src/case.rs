//! Identifier case conversions: Pascal-case tokens, snake case, Go export names.
use vstd::prelude::*;

use crate::text::{
    char_is_alnum, char_is_digit, char_lower, char_upper, chars_of, eq_lit, is_alnum, is_digit,
    join, lower, lower_all, lower_all_vec, push_chars, slice_vec, string_of, upper,
};
use crate::types::{append_chars, append_lit};
use crate::unicode::{
    char_is_lowercase, char_is_uppercase, char_to_uppercase, has_lowercase_property,
    has_uppercase_property, uppercase_mapping,
};

verus! {

pub open spec fn vviews(v: Seq<Vec<char>>) -> Seq<Seq<char>> {
    v.map_values(|t: Vec<char>| t@)
}

/// A token boundary before position `i` of `s`.
pub open spec fn boundary(s: Seq<char>, i: int) -> bool {
    let prev = s[i - 1];
    let cur = s[i];
    (has_lowercase_property(prev) && has_uppercase_property(cur)) || (is_digit(prev) && !is_digit(
        cur,
    )) || (!is_digit(prev) && is_digit(cur)) || (has_uppercase_property(prev)
        && has_uppercase_property(cur) && i + 1 < s.len() && has_lowercase_property(s[i + 1]))
}

pub open spec fn pascal_from(s: Seq<char>, start: int, i: int) -> Seq<Seq<char>>
    decreases s.len() - i,
{
    if i >= s.len() {
        seq![s.subrange(start, s.len() as int)]
    } else if boundary(s, i) {
        seq![s.subrange(start, i)] + pascal_from(s, i, i + 1)
    } else {
        pascal_from(s, start, i + 1)
    }
}

/// The tokens of an identifier split at case and digit boundaries.
pub open spec fn pascal_tokens(s: Seq<char>) -> Seq<Seq<char>> {
    if s.len() == 0 {
        seq![]
    } else {
        pascal_from(s, 0, 1)
    }
}

pub fn split_pascal_tokens_vec(s: &[char]) -> (r: Vec<Vec<char>>)
    ensures
        vviews(r@) == pascal_tokens(s@),
{
    let mut tokens: Vec<Vec<char>> = Vec::new();
    if s.len() == 0 {
        assert(vviews(tokens@) =~= seq![]);
        return tokens;
    }
    let mut start: usize = 0;
    let mut i: usize = 1;
    while i < s.len()
        invariant
            1 <= i <= s.len(),
            start < i,
            vviews(tokens@) + pascal_from(s@, start as int, i as int) == pascal_tokens(s@),
        decreases s.len() - i,
    {
        let prev = s[i - 1];
        let cur = s[i];
        let next_lower = i + 1 < s.len() && char_is_lowercase(s[i + 1]);
        let b = (char_is_lowercase(prev) && char_is_uppercase(cur)) || (char_is_digit(prev)
            && !char_is_digit(cur)) || (!char_is_digit(prev) && char_is_digit(cur)) || (
        char_is_uppercase(prev) && char_is_uppercase(cur) && next_lower);
        assert(b == boundary(s@, i as int));
        if b {
            let tok = slice_vec(s, start, i);
            let ghost before = tokens@;
            tokens.push(tok);
            assert(vviews(tokens@) =~= vviews(before).push(tok@));
            assert(vviews(tokens@) + pascal_from(s@, i as int, i + 1) =~= vviews(before) + (seq![
                s@.subrange(start as int, i as int),
            ] + pascal_from(s@, i as int, i + 1)));
            start = i;
        }
        i = i + 1;
    }
    let tok = slice_vec(s, start, s.len());
    let ghost before = tokens@;
    tokens.push(tok);
    assert(vviews(tokens@) =~= vviews(before).push(tok@));
    assert(vviews(tokens@) =~= vviews(before) + pascal_from(s@, start as int, i as int));
    tokens
}

pub fn split_pascal_tokens(value: &str) -> (r: Vec<String>)
    ensures
        r@.map_values(|t: String| t@) == pascal_tokens(value@),
{
    let v = chars_of(value);
    let toks = split_pascal_tokens_vec(v.as_slice());
    let mut out: Vec<String> = Vec::new();
    let mut i: usize = 0;
    while i < toks.len()
        invariant
            i <= toks.len(),
            vviews(toks@) == pascal_tokens(v@),
            out@.map_values(|t: String| t@) =~= vviews(toks@).take(i as int),
        decreases toks.len() - i,
    {
        let t = string_of(toks[i].as_slice());
        let ghost before = out@;
        out.push(t);
        assert(out@.map_values(|t: String| t@) =~= before.map_values(|t: String| t@).push(
            toks@[i as int]@,
        ));
        assert(vviews(toks@).take(i + 1) =~= vviews(toks@).take(i as int).push(toks@[i as int]@));
        i = i + 1;
    }
    assert(vviews(toks@).take(i as int) =~= vviews(toks@));
    out
}

/// `parts.concat()` joined by `sep`.
pub fn join_vecs(parts: &Vec<Vec<char>>, sep: &str) -> (r: Vec<char>)
    ensures
        r@ == join(vviews(parts@), sep@),
{
    let mut out: Vec<char> = Vec::new();
    let ghost vs = vviews(parts@);
    let mut i: usize = 0;
    while i < parts.len()
        invariant
            i <= parts.len(),
            vs == vviews(parts@),
            out@ == join(vs.take(i as int), sep@),
        decreases parts.len() - i,
    {
        assert(vs.take(i + 1).drop_last() =~= vs.take(i as int));
        if i == 0 {
            assert(out@ =~= seq![]);
            append_chars(&mut out, parts[i].as_slice());
            assert(vs.take(1) =~= seq![vs[0]]);
            assert(out@ =~= vs[0]);
        } else {
            append_lit(&mut out, sep);
            append_chars(&mut out, parts[i].as_slice());
        }
        i = i + 1;
    }
    assert(vs.take(i as int) =~= vs);
    out
}

/// Snake case: the Pascal-case tokens, lowercased, joined by `_`.
pub open spec fn snake_case(s: Seq<char>) -> Seq<char> {
    join(pascal_tokens(s).map_values(|t: Seq<char>| lower_all(t)), "_"@)
}

pub fn to_snake_case(value: &str) -> (r: String)
    ensures
        r@ == snake_case(value@),
{
    let v = chars_of(value);
    let toks = split_pascal_tokens_vec(v.as_slice());
    let mut lowered: Vec<Vec<char>> = Vec::new();
    let mut i: usize = 0;
    while i < toks.len()
        invariant
            i <= toks.len(),
            vviews(toks@) == pascal_tokens(v@),
            vviews(lowered@) =~= pascal_tokens(v@).take(i as int).map_values(
                |t: Seq<char>| lower_all(t),
            ),
        decreases toks.len() - i,
    {
        let l = lower_all_vec(toks[i].as_slice());
        let ghost before = lowered@;
        lowered.push(l);
        proof {
            let ps = pascal_tokens(v@);
            assert(toks@[i as int]@ == ps[i as int]);
            assert(vviews(lowered@) =~= vviews(before).push(l@));
            assert(ps.take(i + 1) =~= ps.take(i as int).push(ps[i as int]));
            assert(ps.take(i + 1).map_values(|t: Seq<char>| lower_all(t)) =~= ps.take(
                i as int,
            ).map_values(|t: Seq<char>| lower_all(t)).push(lower_all(ps[i as int])));
        }
        i = i + 1;
    }
    assert(pascal_tokens(v@).take(i as int) =~= pascal_tokens(v@));
    let j = join_vecs(&lowered, "_");
    string_of(j.as_slice())
}

pub open spec fn segs_from(s: Seq<char>, c: char, start: int, i: int) -> Seq<Seq<char>>
    decreases s.len() - i,
{
    if i >= s.len() {
        if start < s.len() {
            seq![s.subrange(start, s.len() as int)]
        } else {
            seq![]
        }
    } else if s[i] == c {
        (if start < i {
            seq![s.subrange(start, i)]
        } else {
            seq![]
        }) + segs_from(s, c, i + 1, i + 1)
    } else {
        segs_from(s, c, start, i + 1)
    }
}

/// `s.split(c).filter(|part| !part.is_empty())`
pub open spec fn segments(s: Seq<char>, c: char) -> Seq<Seq<char>> {
    segs_from(s, c, 0, 0)
}

pub fn segments_vec(s: &[char], c: char) -> (r: Vec<Vec<char>>)
    ensures
        vviews(r@) == segments(s@, c),
{
    let mut out: Vec<Vec<char>> = Vec::new();
    let mut start: usize = 0;
    let mut i: usize = 0;
    while i < s.len()
        invariant
            start <= i <= s.len(),
            vviews(out@) + segs_from(s@, c, start as int, i as int) == segments(s@, c),
        decreases s.len() - i,
    {
        if s[i] == c {
            let ghost before = out@;
            if start < i {
                let seg = slice_vec(s, start, i);
                out.push(seg);
                assert(vviews(out@) =~= vviews(before).push(seg@));
            } else {
                assert(vviews(out@) =~= vviews(before));
            }
            assert(vviews(out@) + segs_from(s@, c, i + 1, i + 1) =~= vviews(before) + ((if start
                < i {
                seq![s@.subrange(start as int, i as int)]
            } else {
                seq![]
            }) + segs_from(s@, c, i + 1, i + 1)));
            start = i + 1;
        }
        i = i + 1;
    }
    let ghost before = out@;
    if start < s.len() {
        let seg = slice_vec(s, start, s.len());
        out.push(seg);
        assert(vviews(out@) =~= vviews(before).push(seg@));
    } else {
        assert(vviews(out@) =~= vviews(before) + segs_from(s@, c, start as int, i as int));
    }
    out
}

pub open spec fn cap_token(t: Seq<char>) -> Seq<char> {
    if t.len() == 0 {
        seq![]
    } else {
        seq![upper(t[0])] + t.skip(1)
    }
}

pub open spec fn cap_tokens(ts: Seq<Seq<char>>) -> Seq<char>
    decreases ts.len(),
{
    if ts.len() == 0 {
        seq![]
    } else {
        cap_tokens(ts.drop_last()) + cap_token(ts.last())
    }
}

pub open spec fn export_acc(segs: Seq<Seq<char>>, acc: Seq<char>) -> Seq<char>
    decreases segs.len(),
{
    if segs.len() == 0 {
        acc
    } else {
        let seg = segs[0];
        let acc1 = if acc.len() > 0 && seg.len() > 0 && is_digit(seg[0]) {
            acc.push('_')
        } else {
            acc
        };
        export_acc(segs.drop_first(), acc1 + cap_tokens(pascal_tokens(seg)))
    }
}

/// The Go export name of an identifier: `_`-separated segments, each split into
/// Pascal-case tokens whose first letters are capitalized; a `_` is kept before a
/// segment that starts with a digit.
pub open spec fn go_export(v: Seq<char>) -> Seq<char> {
    export_acc(segments(v, '_'), seq![])
}

fn push_cap_tokens(out: &mut Vec<char>, toks: &Vec<Vec<char>>)
    ensures
        final(out)@ == old(out)@ + cap_tokens(vviews(toks@)),
{
    let ghost start = out@;
    let ghost ts = vviews(toks@);
    let mut i: usize = 0;
    while i < toks.len()
        invariant
            i <= toks.len(),
            ts == vviews(toks@),
            out@ == start + cap_tokens(ts.take(i as int)),
        decreases toks.len() - i,
    {
        let tok = &toks[i];
        assert(ts.take(i + 1).drop_last() =~= ts.take(i as int));
        assert(ts[i as int] == tok@);
        if tok.len() > 0 {
            out.push(char_upper(tok[0]));
            let rest = slice_vec(tok.as_slice(), 1, tok.len());
            append_chars(out, rest.as_slice());
            assert(out@ =~= start + cap_tokens(ts.take(i as int)) + cap_token(tok@));
        } else {
            assert(out@ =~= start + cap_tokens(ts.take(i as int)) + cap_token(tok@));
        }
        i = i + 1;
    }
    assert(ts.take(i as int) =~= ts);
}

pub fn go_export_vec(v: &[char]) -> (r: Vec<char>)
    ensures
        r@ == go_export(v@),
{
    let segs = segments_vec(v, '_');
    let ghost ss = vviews(segs@);
    let mut out: Vec<char> = Vec::new();
    let mut k: usize = 0;
    assert(ss.skip(0) =~= ss);
    while k < segs.len()
        invariant
            k <= segs.len(),
            ss == vviews(segs@),
            ss == segments(v@, '_'),
            export_acc(ss, seq![]) == export_acc(ss.skip(k as int), out@),
        decreases segs.len() - k,
    {
        let seg = &segs[k];
        assert(ss[k as int] == seg@);
        assert(ss.skip(k as int).drop_first() =~= ss.skip(k + 1));
        if out.len() > 0 && seg.len() > 0 && char_is_digit(seg[0]) {
            out.push('_');
        }
        let toks = split_pascal_tokens_vec(seg.as_slice());
        push_cap_tokens(&mut out, &toks);
        k = k + 1;
    }
    out
}

pub fn go_export_name(value: &str) -> (r: String)
    ensures
        r@ == go_export(value@),
{
    let v = chars_of(value);
    let r = go_export_vec(v.as_slice());
    string_of(r.as_slice())
}

/// `value` with every character that is not an ASCII letter or digit replaced by `_`.
pub open spec fn go_token(v: Seq<char>) -> Seq<char> {
    Seq::new(
        v.len(),
        |i: int|
            if is_alnum(v[i]) {
                v[i]
            } else {
                '_'
            },
    )
}

pub fn sanitize_go_token_vec(v: &[char]) -> (r: Vec<char>)
    ensures
        r@ == go_token(v@),
{
    let mut out: Vec<char> = Vec::new();
    let mut i: usize = 0;
    while i < v.len()
        invariant
            i <= v.len(),
            out@ =~= go_token(v@.take(i as int)),
        decreases v.len() - i,
    {
        let c = v[i];
        out.push(
            if char_is_alnum(c) {
                c
            } else {
                '_'
            },
        );
        i = i + 1;
    }
    assert(v@.take(i as int) =~= v@);
    out
}

pub fn sanitize_go_token(value: &str) -> (r: String)
    ensures
        r@ == go_token(value@),
{
    let v = chars_of(value);
    let r = sanitize_go_token_vec(v.as_slice());
    string_of(r.as_slice())
}

/// The receiver variable of a Go method: the lowercased first character, or `v`.
pub open spec fn receiver(v: Seq<char>) -> Seq<char> {
    if v.len() == 0 {
        "v"@
    } else {
        seq![lower(v[0])]
    }
}

pub fn receiver_name(value: &str) -> (r: String)
    ensures
        r@ == receiver(value@),
{
    let v = chars_of(value);
    if v.len() == 0 {
        return String::from_str("v");
    }
    let one: Vec<char> = vec![char_lower(v[0])];
    assert(one@ =~= seq![lower(v@[0])]);
    string_of(one.as_slice())
}

/// Accessor suffix of a struct field: `_`-separated parts, each with its first character
/// mapped to uppercase.
pub open spec fn accessor_suffix(name: Seq<char>) -> Seq<char> {
    accessor_parts(segments(name, '_'))
}

pub open spec fn accessor_parts(parts: Seq<Seq<char>>) -> Seq<char>
    decreases parts.len(),
{
    if parts.len() == 0 {
        seq![]
    } else {
        let p = parts.last();
        accessor_parts(parts.drop_last()) + (if p.len() == 0 {
            seq![]
        } else {
            uppercase_mapping(p[0]) + p.skip(1)
        })
    }
}

pub fn struct_field_accessor_suffix(field_name: &str) -> (r: String)
    ensures
        r@ == accessor_suffix(field_name@),
{
    let v = chars_of(field_name);
    let parts = segments_vec(v.as_slice(), '_');
    let ghost ps = vviews(parts@);
    let mut out = String::new();
    let mut i: usize = 0;
    while i < parts.len()
        invariant
            i <= parts.len(),
            ps == vviews(parts@),
            ps == segments(v@, '_'),
            out@ == accessor_parts(ps.take(i as int)),
        decreases parts.len() - i,
    {
        let p = &parts[i];
        assert(ps.take(i + 1).drop_last() =~= ps.take(i as int));
        assert(ps[i as int] == p@);
        if p.len() > 0 {
            let first = char_to_uppercase(p[0]);
            crate::text::push_string(&mut out, &first);
            let rest = slice_vec(p.as_slice(), 1, p.len());
            push_chars(&mut out, rest.as_slice());
            assert(out@ =~= accessor_parts(ps.take(i as int)) + (uppercase_mapping(p@[0])
                + p@.skip(1)));
        } else {
            assert(out@ =~= accessor_parts(ps.take(i as int)) + seq![]);
        }
        i = i + 1;
    }
    assert(ps.take(i as int) =~= ps);
    out
}

} // verus!
