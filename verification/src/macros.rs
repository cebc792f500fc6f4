//! Values of object-like macros: integer, floating and string literals, rendered as Go
//! constant expressions.
use vstd::prelude::*;

use crate::text::{
    all_digits, all_digits_exec, all_hex, all_hex_exec, char_is_digit, char_is_hex, chars_of,
    eq_lit, find, find_char, is_digit, is_hex, join, lemma_find_bounds, push_chars, push_one,
    push_str, push_string, slice_vec, starts_with, starts_with_lit, string_of, trim, trim_vec,
    views,
};

verus! {

#[derive(Debug, Clone, Copy, PartialEq, Eq, Structural)]
pub enum MacroConstantKind {
    Integer,
    Float,
    String,
}

#[derive(Debug, Clone)]
pub struct ParsedMacroValue {
    pub kind: MacroConstantKind,
    pub value: String,
}

// ---------------------------------------------------------------------------
// Wrapping parentheses
// ---------------------------------------------------------------------------

/// Scanning `ts` from position `i` at nesting depth `d`: the parentheses stay balanced and
/// the depth returns to zero only at the last token.
pub open spec fn parens_scan(ts: Seq<Seq<char>>, i: int, d: int) -> bool
    decreases ts.len() - i,
{
    if i >= ts.len() {
        d == 0
    } else if ts[i] == "("@ {
        parens_scan(ts, i + 1, d + 1)
    } else if ts[i] == ")"@ {
        d >= 1 && (d - 1 != 0 || i == ts.len() - 1) && parens_scan(ts, i + 1, d - 1)
    } else {
        parens_scan(ts, i + 1, d)
    }
}

/// `( ... )` where the first parenthesis closes at the end.
pub open spec fn wrapped(ts: Seq<Seq<char>>) -> bool {
    ts.len() >= 3 && ts[0] == "("@ && ts[ts.len() - 1] == ")"@ && parens_scan(ts, 0, 0)
}

pub open spec fn unwrap_parens(ts: Seq<Seq<char>>) -> Seq<Seq<char>>
    decreases ts.len(),
{
    if wrapped(ts) {
        unwrap_parens(ts.subrange(1, ts.len() - 1))
    } else {
        ts
    }
}

fn is_wrapped_in_parentheses(tokens: &[String], lo: usize, hi: usize) -> (b: bool)
    requires
        lo <= hi <= tokens.len(),
    ensures
        b == wrapped(views(tokens@).subrange(lo as int, hi as int)),
{
    let ghost ts = views(tokens@).subrange(lo as int, hi as int);
    if hi - lo < 3 {
        return false;
    }
    if !crate::text::str_eq(tokens[lo].as_str(), "(") || !crate::text::str_eq(
        tokens[hi - 1].as_str(),
        ")",
    ) {
        assert(ts[0] == tokens@[lo as int]@);
        assert(ts[ts.len() - 1] == tokens@[hi - 1]@);
        return false;
    }
    assert(ts[0] == tokens@[lo as int]@);
    assert(ts[ts.len() - 1] == tokens@[hi - 1]@);
    let mut depth: usize = 0;
    let mut i: usize = lo;
    while i < hi
        invariant
            lo <= i <= hi <= tokens.len(),
            ts == views(tokens@).subrange(lo as int, hi as int),
            depth <= i - lo,
            parens_scan(ts, 0, 0) == parens_scan(ts, i - lo, depth as int),
        decreases hi - i,
    {
        assert(ts[i - lo] == tokens@[i as int]@);
        if crate::text::str_eq(tokens[i].as_str(), "(") {
            depth = depth + 1;
        } else if crate::text::str_eq(tokens[i].as_str(), ")") {
            if depth == 0 {
                return false;
            }
            depth = depth - 1;
            if depth == 0 && i != hi - 1 {
                return false;
            }
        }
        i = i + 1;
    }
    depth == 0
}

/// The bounds of the tokens left after removing wrapping parentheses.
fn strip_wrapping_parentheses(tokens: &[String]) -> (r: (usize, usize))
    ensures
        r.0 <= r.1 <= tokens.len(),
        views(tokens@).subrange(r.0 as int, r.1 as int) == unwrap_parens(views(tokens@)),
{
    let mut lo: usize = 0;
    let mut hi: usize = tokens.len();
    assert(views(tokens@).subrange(0, tokens.len() as int) =~= views(tokens@));
    while is_wrapped_in_parentheses(tokens, lo, hi)
        invariant
            lo <= hi <= tokens.len(),
            unwrap_parens(views(tokens@)) == unwrap_parens(
                views(tokens@).subrange(lo as int, hi as int),
            ),
        decreases hi - lo,
    {
        assert(views(tokens@).subrange(lo as int, hi as int).subrange(1, (hi - lo) - 1)
            =~= views(tokens@).subrange(lo + 1, hi - 1));
        lo = lo + 1;
        hi = hi - 1;
    }
    (lo, hi)
}

// ---------------------------------------------------------------------------
// Integer literals
// ---------------------------------------------------------------------------

pub open spec fn int_suffix_char(c: char) -> bool {
    c == 'u' || c == 'U' || c == 'l' || c == 'L'
}

/// `s` without its trailing `u`/`U`/`l`/`L` characters.
pub open spec fn strip_int_suffix(s: Seq<char>) -> Seq<char>
    decreases s.len(),
{
    if s.len() > 0 && int_suffix_char(s.last()) {
        strip_int_suffix(s.drop_last())
    } else {
        s
    }
}

pub open spec fn unsigned_part(s: Seq<char>) -> Seq<char> {
    if s.len() > 0 && (s[0] == '+' || s[0] == '-') {
        s.drop_first()
    } else {
        s
    }
}

pub open spec fn hex_prefixed(s: Seq<char>) -> bool {
    starts_with(s, "0x"@) || starts_with(s, "0X"@)
}

/// An optionally signed decimal or `0x` literal with an optional `u`/`l` suffix.
pub open spec fn is_integer_literal(v: Seq<char>) -> bool {
    let u = unsigned_part(v);
    let digits = strip_int_suffix(u);
    u.len() > 0 && digits.len() > 0 && if hex_prefixed(digits) {
        digits.len() > 2 && all_hex(digits.skip(2))
    } else {
        all_digits(digits)
    }
}

fn strip_int_suffix_vec(s: &[char]) -> (r: Vec<char>)
    ensures
        r@ == strip_int_suffix(s@),
{
    let mut j: usize = s.len();
    assert(s@.take(j as int) =~= s@);
    while j > 0 && (s[j - 1] == 'u' || s[j - 1] == 'U' || s[j - 1] == 'l' || s[j - 1] == 'L')
        invariant
            j <= s.len(),
            strip_int_suffix(s@) == strip_int_suffix(s@.take(j as int)),
        decreases j,
    {
        assert(s@.take(j as int).drop_last() =~= s@.take(j - 1));
        j = j - 1;
    }
    slice_vec(s, 0, j)
}

fn unsigned_part_vec(s: &[char]) -> (r: Vec<char>)
    ensures
        r@ == unsigned_part(s@),
{
    if s.len() > 0 && (s[0] == '+' || s[0] == '-') {
        let r = slice_vec(s, 1, s.len());
        assert(r@ =~= s@.drop_first());
        r
    } else {
        slice_vec(s, 0, s.len())
    }
}

fn is_hex_prefixed(s: &[char]) -> (b: bool)
    ensures
        b == hex_prefixed(s@),
{
    starts_with_lit(s, "0x") || starts_with_lit(s, "0X")
}

pub fn is_supported_integer_literal(v: &[char]) -> (b: bool)
    ensures
        b == is_integer_literal(v@),
{
    let u = unsigned_part_vec(v);
    if u.len() == 0 {
        return false;
    }
    let digits = strip_int_suffix_vec(u.as_slice());
    if digits.len() == 0 {
        return false;
    }
    if is_hex_prefixed(digits.as_slice()) {
        proof {
            reveal_strlit("0x");
            reveal_strlit("0X");
        }
        if digits.len() <= 2 {
            return false;
        }
        let hex = slice_vec(digits.as_slice(), 2, digits.len());
        assert(hex@ =~= digits@.skip(2));
        all_hex_exec(hex.as_slice())
    } else {
        all_digits_exec(digits.as_slice())
    }
}

// ---------------------------------------------------------------------------
// Floating literals
// ---------------------------------------------------------------------------

pub open spec fn sign_of(s: Seq<char>) -> Seq<char> {
    if s.len() > 0 && (s[0] == '+' || s[0] == '-') {
        seq![s[0]]
    } else {
        seq![]
    }
}

pub open spec fn float_suffix_char(c: char) -> bool {
    c == 'f' || c == 'F' || c == 'l' || c == 'L'
}

/// One trailing `f`/`F`/`l`/`L` removed.
pub open spec fn strip_float_suffix(s: Seq<char>) -> Seq<char> {
    if s.len() > 0 && float_suffix_char(s.last()) {
        s.drop_last()
    } else {
        s
    }
}

/// An optionally signed run of decimal digits after the exponent letter.
pub open spec fn valid_exponent(s: Seq<char>) -> bool {
    let d = unsigned_part(s);
    d.len() > 0 && all_digits(d)
}

/// Index of the first character of `s` satisfying one of two letters.
pub open spec fn find_either(s: Seq<char>, a: char, b: char) -> Option<int>
    decreases s.len(),
{
    if s.len() == 0 {
        None
    } else if s[0] == a || s[0] == b {
        Some(0)
    } else {
        match find_either(s.drop_first(), a, b) {
            Some(i) => Some(i + 1),
            None => None,
        }
    }
}

pub proof fn lemma_find_either_bounds(s: Seq<char>, a: char, b: char)
    ensures
        find_either(s, a, b) matches Some(i) ==> 0 <= i < s.len() && (s[i] == a || s[i] == b),
    decreases s.len(),
{
    if s.len() > 0 && !(s[0] == a || s[0] == b) {
        lemma_find_either_bounds(s.drop_first(), a, b);
    }
}

fn find_either_exec(s: &[char], a: char, b: char) -> (r: Option<usize>)
    ensures
        match r {
            Some(i) => find_either(s@, a, b) == Some(i as int),
            None => find_either(s@, a, b) is None,
        },
{
    let mut i: usize = 0;
    assert(s@.skip(0) =~= s@);
    while i < s.len()
        invariant
            i <= s.len(),
            match find_either(s@.skip(i as int), a, b) {
                Some(k) => find_either(s@, a, b) == Some(k + i),
                None => find_either(s@, a, b) is None,
            },
        decreases s.len() - i,
    {
        if s[i] == a || s[i] == b {
            return Some(i);
        }
        assert(s@.skip(i as int).drop_first() =~= s@.skip(i + 1));
        i = i + 1;
    }
    None
}

/// A hex mantissa: hex digits with at most one `.`, at least one digit.
pub open spec fn valid_hex_mantissa(s: Seq<char>) -> bool {
    (forall|i: int| 0 <= i < s.len() ==> (is_hex(#[trigger] s[i]) || s[i] == '.')) && s.filter(
        |c: char| c == '.',
    ).len() <= 1 && exists|i: int| 0 <= i < s.len() && is_hex(#[trigger] s[i])
}

/// `0x<mantissa>p<exponent>`
pub open spec fn valid_hex_float(body: Seq<char>) -> bool {
    let rest = body.skip(2);
    match find_either(rest, 'p', 'P') {
        Some(i) => valid_hex_mantissa(rest.take(i)) && valid_exponent(rest.skip(i + 1)),
        None => false,
    }
}

/// A decimal mantissa with a `.`: both sides digits, at least one non-empty; empty sides
/// read as `0`. Without a `.`, digits only, and only before an exponent.
pub open spec fn decimal_mantissa(v: Seq<char>, has_exponent: bool) -> Option<Seq<char>> {
    match find(v, seq!['.']) {
        Some(d) => {
            let left = v.take(d);
            let right = v.skip(d + 1);
            if left.len() == 0 && right.len() == 0 {
                None
            } else if !all_digits(left) || !all_digits(right) {
                None
            } else {
                Some(
                    (if left.len() == 0 {
                        "0"@
                    } else {
                        left
                    }) + "."@ + (if right.len() == 0 {
                        "0"@
                    } else {
                        right
                    }),
                )
            }
        },
        None => if has_exponent && v.len() > 0 && all_digits(v) {
            Some(v)
        } else {
            None
        },
    }
}

pub open spec fn decimal_float(body: Seq<char>) -> Option<Seq<char>> {
    match find_either(body, 'e', 'E') {
        Some(i) => match decimal_mantissa(body.take(i), true) {
            Some(m) => if valid_exponent(body.skip(i + 1)) {
                Some(m + body.skip(i))
            } else {
                None
            },
            None => None,
        },
        None => decimal_mantissa(body, false),
    }
}

/// The Go spelling of a floating literal, without its C suffix.
pub open spec fn float_literal(v: Seq<char>) -> Option<Seq<char>> {
    let t = trim(v);
    let rest = unsigned_part(t);
    if rest.len() == 0 {
        None
    } else {
        let body = strip_float_suffix(rest);
        if hex_prefixed(body) {
            if valid_hex_float(body) {
                Some(sign_of(t) + body)
            } else {
                None
            }
        } else {
            match decimal_float(body) {
                Some(b) => Some(sign_of(t) + b),
                None => None,
            }
        }
    }
}

fn valid_exponent_digits(s: &[char]) -> (b: bool)
    ensures
        b == valid_exponent(s@),
{
    let d = unsigned_part_vec(s);
    d.len() > 0 && all_digits_exec(d.as_slice())
}

fn validate_hex_mantissa(s: &[char]) -> (b: bool)
    ensures
        b == valid_hex_mantissa(s@),
{
    let mut hex_digits: usize = 0;
    let mut dots: usize = 0;
    let mut i: usize = 0;
    while i < s.len()
        invariant
            i <= s.len(),
            forall|k: int| 0 <= k < i ==> (is_hex(#[trigger] s@[k]) || s@[k] == '.'),
            dots == s@.take(i as int).filter(|c: char| c == '.').len(),
            dots <= 1,
            hex_digits <= i,
            (hex_digits > 0) == (exists|k: int| 0 <= k < i && is_hex(#[trigger] s@[k])),
        decreases s.len() - i,
    {
        proof {
            reveal(Seq::filter);
            assert(s@.take(i + 1).drop_last() =~= s@.take(i as int));
        }
        let c = s[i];
        if c == '.' {
            if dots >= 1 {
                proof {
                    assert(s@.take(i + 1).filter(|c: char| c == '.').len() == 2);
                    lemma_filter_prefix_le(s@, i + 1);
                }
                return false;
            }
            dots = dots + 1;
        } else if char_is_hex(c) {
            hex_digits = hex_digits + 1;
        } else {
            return false;
        }
        i = i + 1;
    }
    assert(s@.take(i as int) =~= s@);
    hex_digits > 0
}

/// Dots in a prefix are never more than in the whole.
pub proof fn lemma_filter_prefix_le(s: Seq<char>, k: int)
    requires
        0 <= k <= s.len(),
    ensures
        s.take(k).filter(|c: char| c == '.').len() <= s.filter(|c: char| c == '.').len(),
    decreases s.len() - k,
{
    reveal(Seq::filter);
    if k < s.len() {
        lemma_filter_prefix_le(s, k + 1);
        assert(s.take(k + 1).drop_last() =~= s.take(k));
    } else {
        assert(s.take(k) =~= s);
    }
}

fn validate_hex_float(body: &[char]) -> (b: bool)
    requires
        body.len() >= 2,
    ensures
        b == valid_hex_float(body@),
{
    let rest = slice_vec(body, 2, body.len());
    assert(rest@ =~= body@.skip(2));
    proof {
        lemma_find_either_bounds(rest@, 'p', 'P');
    }
    match find_either_exec(rest.as_slice(), 'p', 'P') {
        Some(i) => {
            assert(i < rest.len());
            let m = slice_vec(rest.as_slice(), 0, i);
            let e = slice_vec(rest.as_slice(), i + 1, rest.len());
            assert(m@ =~= rest@.take(i as int));
            assert(e@ =~= rest@.skip(i + 1));
            validate_hex_mantissa(m.as_slice()) && valid_exponent_digits(e.as_slice())
        },
        None => false,
    }
}

fn normalize_decimal_mantissa(v: &[char], has_exponent: bool) -> (r: Option<Vec<char>>)
    ensures
        match decimal_mantissa(v@, has_exponent) {
            Some(m) => r is Some && r->0@ == m,
            None => r is None,
        },
{
    proof {
        lemma_find_bounds(v@, seq!['.']);
        reveal_strlit("0");
        reveal_strlit(".");
    }
    match find_char(v, '.') {
        Some(d) => {
            assert(crate::text::matches_at(v@, seq!['.'], d as int));
            assert(seq!['.'].len() == 1);
            assert(d + 1 <= v@.len());
            assert(d < v.len());
            let left = slice_vec(v, 0, d);
            let right = slice_vec(v, d + 1, v.len());
            assert(left@ =~= v@.take(d as int));
            assert(right@ =~= v@.skip(d + 1));
            if left.len() == 0 && right.len() == 0 {
                return None;
            }
            if !all_digits_exec(left.as_slice()) || !all_digits_exec(right.as_slice()) {
                return None;
            }
            let mut out: Vec<char> = if left.len() == 0 {
                vec!['0']
            } else {
                left
            };
            out.push('.');
            let ghost before = out@;
            if right.len() == 0 {
                out.push('0');
            } else {
                let mut k: usize = 0;
                while k < right.len()
                    invariant
                        k <= right.len(),
                        out@ == before + right@.take(k as int),
                    decreases right.len() - k,
                {
                    out.push(right[k]);
                    assert(right@.take(k + 1) =~= right@.take(k as int).push(right@[k as int]));
                    k = k + 1;
                }
                assert(right@.take(k as int) =~= right@);
            }
            assert(out@ =~= (if left@.len() == 0 {
                "0"@
            } else {
                left@
            }) + "."@ + (if right@.len() == 0 {
                "0"@
            } else {
                right@
            }));
            Some(out)
        },
        None => {
            if has_exponent && v.len() > 0 && all_digits_exec(v) {
                Some(slice_vec(v, 0, v.len()))
            } else {
                None
            }
        },
    }
}

fn normalize_decimal_float(body: &[char]) -> (r: Option<Vec<char>>)
    ensures
        match decimal_float(body@) {
            Some(m) => r is Some && r->0@ == m,
            None => r is None,
        },
{
    proof {
        lemma_find_either_bounds(body@, 'e', 'E');
    }
    match find_either_exec(body, 'e', 'E') {
        Some(i) => {
            assert(i < body.len());
            let mant = slice_vec(body, 0, i);
            assert(mant@ =~= body@.take(i as int));
            let m = match normalize_decimal_mantissa(mant.as_slice(), true) {
                Some(m) => m,
                None => return None,
            };
            let exp_digits = slice_vec(body, i + 1, body.len());
            assert(exp_digits@ =~= body@.skip(i + 1));
            if !valid_exponent_digits(exp_digits.as_slice()) {
                return None;
            }
            let exp = slice_vec(body, i, body.len());
            assert(exp@ =~= body@.skip(i as int));
            let mut out = m;
            let ghost before = out@;
            let mut k: usize = 0;
            while k < exp.len()
                invariant
                    k <= exp.len(),
                    out@ == before + exp@.take(k as int),
                decreases exp.len() - k,
            {
                out.push(exp[k]);
                assert(exp@.take(k + 1) =~= exp@.take(k as int).push(exp@[k as int]));
                k = k + 1;
            }
            assert(exp@.take(k as int) =~= exp@);
            Some(out)
        },
        None => normalize_decimal_mantissa(body, false),
    }
}

pub fn normalize_macro_float_literal(v: &[char]) -> (r: Option<Vec<char>>)
    ensures
        match float_literal(v@) {
            Some(m) => r is Some && r->0@ == m,
            None => r is None,
        },
{
    let t = trim_vec(v);
    let rest = unsigned_part_vec(t.as_slice());
    if rest.len() == 0 {
        return None;
    }
    let body = if rest.len() > 0 && (rest[rest.len() - 1] == 'f' || rest[rest.len() - 1] == 'F'
        || rest[rest.len() - 1] == 'l' || rest[rest.len() - 1] == 'L') {
        let b = slice_vec(rest.as_slice(), 0, rest.len() - 1);
        assert(b@ =~= rest@.drop_last());
        b
    } else {
        rest
    };
    let mut out: Vec<char> = Vec::new();
    if t.len() > 0 && (t[0] == '+' || t[0] == '-') {
        out.push(t[0]);
    }
    assert(out@ =~= sign_of(t@));
    let tail = if is_hex_prefixed(body.as_slice()) {
        proof {
            reveal_strlit("0x");
            reveal_strlit("0X");
        }
        if !validate_hex_float(body.as_slice()) {
            return None;
        }
        body
    } else {
        match normalize_decimal_float(body.as_slice()) {
            Some(b) => b,
            None => return None,
        }
    };
    let ghost before = out@;
    let mut k: usize = 0;
    while k < tail.len()
        invariant
            k <= tail.len(),
            out@ == before + tail@.take(k as int),
        decreases tail.len() - k,
    {
        out.push(tail[k]);
        assert(tail@.take(k + 1) =~= tail@.take(k as int).push(tail@[k as int]));
        k = k + 1;
    }
    assert(tail@.take(k as int) =~= tail@);
    Some(out)
}


// ---------------------------------------------------------------------------
// String literals
// ---------------------------------------------------------------------------

/// The UTF-8 encoding of the code point `u`.
pub open spec fn utf8_code(u: int) -> Seq<u8> {
    if u < 0x80 {
        seq![u as u8]
    } else if u < 0x800 {
        seq![(0xC0 + u / 64) as u8, (0x80 + u % 64) as u8]
    } else if u < 0x10000 {
        seq![(0xE0 + u / 4096) as u8, (0x80 + (u / 64) % 64) as u8, (0x80 + u % 64) as u8]
    } else {
        seq![
            (0xF0 + u / 262144) as u8,
            (0x80 + (u / 4096) % 64) as u8,
            (0x80 + (u / 64) % 64) as u8,
            (0x80 + u % 64) as u8,
        ]
    }
}

/// The UTF-8 encoding of a character.
pub open spec fn utf8(c: char) -> Seq<u8> {
    utf8_code(c as int)
}

fn push_utf8_code(out: &mut Vec<u8>, u: u32)
    requires
        u <= 0x10FFFF,
    ensures
        final(out)@ == old(out)@ + utf8_code(u as int),
{
    let ghost before = out@;
    if u < 0x80 {
        out.push(u as u8);
        assert(out@ =~= before + utf8_code(u as int));
    } else if u < 0x800 {
        out.push((0xC0 + u / 64) as u8);
        out.push((0x80 + u % 64) as u8);
        assert(out@ =~= before + utf8_code(u as int));
    } else if u < 0x10000 {
        out.push((0xE0 + u / 4096) as u8);
        out.push((0x80 + (u / 64) % 64) as u8);
        out.push((0x80 + u % 64) as u8);
        assert(out@ =~= before + utf8_code(u as int));
    } else {
        out.push((0xF0 + u / 262144) as u8);
        out.push((0x80 + (u / 4096) % 64) as u8);
        out.push((0x80 + (u / 64) % 64) as u8);
        out.push((0x80 + u % 64) as u8);
        assert(out@ =~= before + utf8_code(u as int));
    }
}

pub open spec fn hex_val(c: char) -> int {
    if '0' <= c && c <= '9' {
        c as int - 48
    } else if 'a' <= c && c <= 'f' {
        c as int - 87
    } else {
        c as int - 55
    }
}

pub open spec fn octal_digit(c: char) -> bool {
    '0' <= c && c <= '7'
}

/// The value of a run of octal digits.
pub open spec fn octal_value(s: Seq<char>) -> int
    decreases s.len(),
{
    if s.len() == 0 {
        0
    } else {
        octal_value(s.drop_last()) * 8 + hex_val(s.last())
    }
}

/// The value of a run of hex digits.
pub open spec fn hex_value(s: Seq<char>) -> int
    decreases s.len(),
{
    if s.len() == 0 {
        0
    } else {
        hex_value(s.drop_last()) * 16 + hex_val(s.last())
    }
}

/// Length of the leading run of hex digits.
pub open spec fn hex_run(s: Seq<char>) -> nat
    decreases s.len(),
{
    if s.len() > 0 && is_hex(s[0]) {
        1 + hex_run(s.drop_first())
    } else {
        0
    }
}

pub proof fn lemma_hex_run_len(s: Seq<char>)
    ensures
        hex_run(s) <= s.len(),
        forall|i: int| 0 <= i < hex_run(s) ==> is_hex(#[trigger] s[i]),
        hex_run(s) < s.len() ==> !is_hex(s[hex_run(s) as int]),
    decreases s.len(),
{
    if s.len() > 0 && is_hex(s[0]) {
        lemma_hex_run_len(s.drop_first());
        assert forall|i: int| 0 <= i < hex_run(s) implies is_hex(#[trigger] s[i]) by {
            if i > 0 {
                assert(s[i] == s.drop_first()[i - 1]);
            }
        }
    }
}

/// Up to two further octal digits after the first.
pub open spec fn octal_more(s: Seq<char>) -> nat {
    if s.len() > 0 && octal_digit(s[0]) {
        if s.len() > 1 && octal_digit(s[1]) {
            2
        } else {
            1
        }
    } else {
        0
    }
}

/// A valid Unicode scalar value.
pub open spec fn is_scalar(v: int) -> bool {
    (0 <= v < 0xD800) || (0xE000 <= v <= 0x10FFFF)
}

/// The bytes a C string literal body denotes: UTF-8 for plain characters, simple
/// escapes, line continuations, octal and hex byte escapes (at most 255), and `\u`/`\U`
/// universal character names; a raw line break or an unknown escape is rejected.
#[verifier::opaque]
pub open spec fn decode(s: Seq<char>) -> Option<Seq<u8>>
    decreases s.len(),
{
    if s.len() == 0 {
        Some(seq![])
    } else {
        let c = s[0];
        if c == '\n' || c == '\r' {
            None
        } else if c != '\\' {
            prefix_bytes(utf8(c), decode(s.skip(1)))
        } else if s.len() < 2 {
            None
        } else {
            let e = s[1];
            if e == '\'' || e == '"' || e == '?' || e == '\\' {
                prefix_bytes(seq![e as u8], decode(s.skip(2)))
            } else if e == 'a' {
                prefix_bytes(seq![7u8], decode(s.skip(2)))
            } else if e == 'b' {
                prefix_bytes(seq![8u8], decode(s.skip(2)))
            } else if e == 'f' {
                prefix_bytes(seq![12u8], decode(s.skip(2)))
            } else if e == 'n' {
                prefix_bytes(seq![10u8], decode(s.skip(2)))
            } else if e == 'r' {
                prefix_bytes(seq![13u8], decode(s.skip(2)))
            } else if e == 't' {
                prefix_bytes(seq![9u8], decode(s.skip(2)))
            } else if e == 'v' {
                prefix_bytes(seq![11u8], decode(s.skip(2)))
            } else if e == '\n' {
                decode(s.skip(2))
            } else if e == '\r' {
                if s.len() > 2 && s[2] == '\n' {
                    decode(s.skip(3))
                } else {
                    decode(s.skip(2))
                }
            } else if octal_digit(e) {
                let n: int = octal_more(s.skip(2)) as int;
                let v = octal_value(s.subrange(1, 2 + n));
                if v > 255 {
                    None
                } else {
                    prefix_bytes(seq![v as u8], decode(s.skip(2 + n)))
                }
            } else if e == 'x' {
                let n: int = hex_run(s.skip(2)) as int;
                proof {
                    lemma_hex_run_len(s.skip(2));
                }
                let v = hex_value(s.subrange(2, 2 + n));
                if n == 0 || v > 255 {
                    None
                } else {
                    prefix_bytes(seq![v as u8], decode(s.skip(2 + n)))
                }
            } else if e == 'u' || e == 'U' {
                let n: int = if e == 'u' {
                    4
                } else {
                    8
                };
                if s.len() < 2 + n || !all_hex(s.subrange(2, 2 + n)) || !is_scalar(
                    hex_value(s.subrange(2, 2 + n)),
                ) {
                    None
                } else {
                    prefix_bytes(
                        utf8_code(hex_value(s.subrange(2, 2 + n))),
                        decode(s.skip(2 + n)),
                    )
                }
            } else {
                None
            }
        }
    }
}

pub open spec fn prefix_bytes(p: Seq<u8>, rest: Option<Seq<u8>>) -> Option<Seq<u8>> {
    match rest {
        Some(r) => Some(p + r),
        None => None,
    }
}


fn char_code(c: char) -> (u: u32)
    ensures
        u == c as int,
        u <= 0x10FFFF,
{
    c as u32
}

pub proof fn lemma_hex_run_exact(x: Seq<char>, m: int)
    requires
        0 <= m <= x.len(),
        forall|k: int| 0 <= k < m ==> is_hex(#[trigger] x[k]),
        m == x.len() || !is_hex(x[m]),
    ensures
        hex_run(x) == m,
{
    lemma_hex_run_len(x);
    if hex_run(x) < m {
        assert(is_hex(x[hex_run(x) as int]));
    }
    if hex_run(x) > m {
        assert(is_hex(x[m]));
    }
}

fn hex_digit_value(c: char) -> (v: u64)
    requires
        is_hex(c),
    ensures
        v == hex_val(c),
        v < 16,
{
    let u = char_code(c) as u64;
    if '0' <= c && c <= '9' {
        u - 48
    } else if 'a' <= c && c <= 'f' {
        u - 87
    } else {
        u - 55
    }
}

pub open spec fn step_ok(body: Seq<char>, i: int, r: Option<(Vec<u8>, usize)>) -> bool {
    match r {
        None => decode(body.skip(i)) is None,
        Some((bytes, adv)) => 1 <= adv <= body.len() - i && decode(body.skip(i)) == prefix_bytes(
            bytes@,
            decode(body.skip(i + adv)),
        ),
    }
}

pub open spec fn simple_escape(e: char) -> bool {
    e == '\'' || e == '"' || e == '?' || e == '\\' || e == 'a' || e == 'b' || e == 'f' || e == 'n'
        || e == 'r' || e == 't' || e == 'v'
}

fn escape_simple(body: &[char], i: usize) -> (r: Option<(Vec<u8>, usize)>)
    requires
        i + 1 < body.len(),
        body@[i as int] == '\\',
        simple_escape(body@[i + 1]),
    ensures
        step_ok(body@, i as int, r),
{
    reveal(decode);
    let ghost s = body@.skip(i as int);
    let e = body[i + 1];
    assert(s[0] == '\\' && s[1] == e);
    assert(s.skip(2) =~= body@.skip(i + 2));
    let b: u8 = if e == '\'' {
        39u8
    } else if e == '"' {
        34u8
    } else if e == '?' {
        63u8
    } else if e == '\\' {
        92u8
    } else if e == 'a' {
        7u8
    } else if e == 'b' {
        8u8
    } else if e == 'f' {
        12u8
    } else if e == 'n' {
        10u8
    } else if e == 'r' {
        13u8
    } else if e == 't' {
        9u8
    } else {
        11u8
    };
    let mut out: Vec<u8> = Vec::new();
    out.push(b);
    assert(out@ =~= seq![b]);
    Some((out, 2))
}

fn escape_continuation(body: &[char], i: usize) -> (r: Option<(Vec<u8>, usize)>)
    requires
        i + 1 < body.len(),
        body@[i as int] == '\\',
        body@[i + 1] == '\n' || body@[i + 1] == '\r',
    ensures
        step_ok(body@, i as int, r),
{
    reveal(decode);
    let ghost s = body@.skip(i as int);
    let n = body.len();
    let e = body[i + 1];
    assert(s[0] == '\\' && s[1] == e);
    assert(s.skip(2) =~= body@.skip(i + 2));
    let out: Vec<u8> = Vec::new();
    assert(out@ =~= Seq::<u8>::empty());
    if e == '\r' && i + 2 < n && body[i + 2] == '\n' {
        assert(s[2] == body[i + 2]);
        assert(s.skip(3) =~= body@.skip(i + 3));
        assert(decode(s) == prefix_bytes(out@, decode(body@.skip(i + 3)))) by {
            match decode(s.skip(3)) {
                Some(t) => {
                    assert(Seq::<u8>::empty() + t =~= t);
                },
                None => {},
            }
        }
        return Some((out, 3));
    }
    assert(i + 2 < n ==> s[2] == body[i + 2]);
    assert(decode(s) == prefix_bytes(out@, decode(body@.skip(i + 2)))) by {
        match decode(s.skip(2)) {
            Some(t) => {
                assert(Seq::<u8>::empty() + t =~= t);
            },
            None => {},
        }
    }
    Some((out, 2))
}

fn escape_octal(body: &[char], i: usize) -> (r: Option<(Vec<u8>, usize)>)
    requires
        i + 1 < body.len(),
        body@[i as int] == '\\',
        octal_digit(body@[i + 1]),
    ensures
        step_ok(body@, i as int, r),
{
    reveal(decode);
    let ghost s = body@.skip(i as int);
    let n = body.len();
    let e = body[i + 1];
    assert(s[0] == '\\' && s[1] == e);
    let e_code = char_code(e);
    let mut v: u64 = (e_code as u64) - 48;
    let mut more: usize = 0;
    let ghost x1 = s.subrange(1, 2);
    assert(x1.drop_last() =~= Seq::<char>::empty());
    assert(x1.last() == e);
    assert(octal_value(Seq::<char>::empty()) == 0);
    assert(octal_value(x1) == hex_val(e));
    if i + 2 < n && '0' <= body[i + 2] && body[i + 2] <= '7' {
        let d1 = body[i + 2];
        assert(s[2] == d1);
        let d1_code = char_code(d1);
        v = v * 8 + ((d1_code as u64) - 48);
        more = 1;
        let ghost x2 = s.subrange(1, 3);
        assert(x2.drop_last() =~= x1);
        assert(x2.last() == d1);
        assert(v == octal_value(x2));
        if i + 3 < n && '0' <= body[i + 3] && body[i + 3] <= '7' {
            let d2 = body[i + 3];
            assert(s[3] == d2);
            let d2_code = char_code(d2);
            v = v * 8 + ((d2_code as u64) - 48);
            more = 2;
            let ghost x3 = s.subrange(1, 4);
            assert(x3.drop_last() =~= x2);
            assert(x3.last() == d2);
            assert(v == octal_value(x3));
        } else {
            assert(i + 3 < n ==> s[3] == body[i + 3]);
        }
    } else {
        assert(i + 2 < n ==> s[2] == body[i + 2]);
    }
    assert(more == octal_more(s.skip(2)));
    assert(v == octal_value(s.subrange(1, 2 + more)));
    if v > 255 {
        return None;
    }
    let mut out: Vec<u8> = Vec::new();
    out.push(v as u8);
    assert(out@ =~= seq![v as u8]);
    assert(s.skip(2 + more) =~= body@.skip(i + 2 + more));
    Some((out, 2 + more))
}

fn escape_hex(body: &[char], i: usize) -> (r: Option<(Vec<u8>, usize)>)
    requires
        i + 1 < body.len(),
        body@[i as int] == '\\',
        body@[i + 1] == 'x',
    ensures
        step_ok(body@, i as int, r),
{
    reveal(decode);
    let ghost s = body@.skip(i as int);
    let n = body.len();
    assert(s[0] == '\\' && s[1] == 'x');
    let mut k: usize = i + 2;
    let mut v: u64 = 0;
    let mut big = false;
    assert(body@.subrange(i + 2, k as int) =~= Seq::<char>::empty());
    while k < n && char_is_hex(body[k])
        invariant
            i + 2 <= k <= n == body.len(),
            s == body@.skip(i as int),
            forall|t: int| i + 2 <= t < k ==> is_hex(#[trigger] body@[t]),
            big <==> hex_value(body@.subrange(i + 2, k as int)) > 255,
            !big ==> v == hex_value(body@.subrange(i + 2, k as int)),
            v <= 255,
        decreases n - k,
    {
        let d = hex_digit_value(body[k]);
        assert(body@.subrange(i + 2, k + 1).drop_last() =~= body@.subrange(i + 2, k as int));
        assert(body@.subrange(i + 2, k + 1).last() == body@[k as int]);
        if !big {
            let nv = v * 16 + d;
            if nv > 255 {
                big = true;
            } else {
                v = nv;
            }
        }
        k = k + 1;
    }
    let run = k - (i + 2);
    proof {
        let x = s.skip(2);
        assert forall|t: int| 0 <= t < run implies is_hex(#[trigger] x[t]) by {
            assert(x[t] == body@[i + 2 + t]);
        }
        if run < x.len() {
            assert(x[run as int] == body@[k as int]);
        }
        lemma_hex_run_exact(x, run as int);
        assert(s.subrange(2, 2 + run) =~= body@.subrange(i + 2, k as int));
    }
    if run == 0 || big {
        return None;
    }
    let mut out: Vec<u8> = Vec::new();
    out.push(v as u8);
    assert(out@ =~= seq![v as u8]);
    assert(s.skip(2 + run) =~= body@.skip(k as int));
    Some((out, k - i))
}

fn escape_universal(body: &[char], i: usize) -> (r: Option<(Vec<u8>, usize)>)
    requires
        i + 1 < body.len(),
        body@[i as int] == '\\',
        body@[i + 1] == 'u' || body@[i + 1] == 'U',
    ensures
        step_ok(body@, i as int, r),
{
    reveal(decode);
    let ghost s = body@.skip(i as int);
    let n = body.len();
    let e = body[i + 1];
    assert(s[0] == '\\' && s[1] == e);
    let digits: usize = if e == 'u' {
        4
    } else {
        8
    };
    if n - i < 2 + digits {
        return None;
    }
    let mut v: u64 = 0;
    let mut k: usize = 0;
    assert(s.subrange(2, 2) =~= Seq::<char>::empty());
    while k < digits
        invariant
            k <= digits,
            digits == 4 || digits == 8,
            i + 2 + digits <= n == body.len(),
            s == body@.skip(i as int),
            forall|t: int| 0 <= t < k ==> is_hex(#[trigger] s[2 + t]),
            s[0] == '\\' && s[1] == e,
            e == 'u' || e == 'U',
            e == 'u' ==> digits == 4,
            e != 'u' ==> digits == 8,
            v == hex_value(s.subrange(2, 2 + k)),
            v < pow16(k as nat),
        decreases digits - k,
    {
        let ch = body[i + 2 + k];
        assert(s[2 + k] == ch);
        if !char_is_hex(ch) {
            proof {
                reveal(decode);
                assert(s.subrange(2, 2 + digits)[k as int] == ch);
                assert(!all_hex(s.subrange(2, 2 + digits)));
            }
            return None;
        }
        let d = hex_digit_value(ch);
        assert(s.subrange(2, 2 + k + 1).drop_last() =~= s.subrange(2, 2 + k));
        assert(s.subrange(2, 2 + k + 1).last() == ch);
        proof {
            lemma_pow16_bound(k as nat);
        }
        v = v * 16 + d;
        k = k + 1;
    }
    assert(all_hex(s.subrange(2, 2 + digits))) by {
        assert forall|t: int| 0 <= t < s.subrange(2, 2 + digits).len() implies is_hex(
            #[trigger] s.subrange(2, 2 + digits)[t],
        ) by {
            assert(s.subrange(2, 2 + digits)[t] == s[2 + t]);
        }
    }
    if !((v < 0xD800) || (0xE000 <= v && v <= 0x10FFFF)) {
        return None;
    }
    let mut out: Vec<u8> = Vec::new();
    push_utf8_code(&mut out, v as u32);
    assert(out@ =~= utf8_code(v as int));
    assert(s.skip(2 + digits) =~= body@.skip(i + 2 + digits));
    Some((out, 2 + digits))
}

/// Decodes the character or escape at `i`: the bytes it denotes and how many characters
/// it spans, or `None` where the body is malformed there.
fn escape_step(body: &[char], i: usize) -> (r: Option<(Vec<u8>, usize)>)
    requires
        i < body.len(),
    ensures
        step_ok(body@, i as int, r),
{
    let ghost s = body@.skip(i as int);
    let n = body.len();
    let c = body[i];
    assert(s[0] == c);
    if c == '\n' || c == '\r' {
        proof {
            reveal(decode);
        }
        return None;
    }
    if c != '\\' {
        proof {
            reveal(decode);
        }
        let mut out: Vec<u8> = Vec::new();
        let cu = char_code(c);
        push_utf8_code(&mut out, cu);
        assert(out@ =~= utf8(c));
        assert(s.skip(1) =~= body@.skip(i + 1));
        return Some((out, 1));
    }
    if i + 1 >= n {
        proof {
            reveal(decode);
        }
        return None;
    }
    let e = body[i + 1];
    if e == '\'' || e == '"' || e == '?' || e == '\\' || e == 'a' || e == 'b' || e == 'f' || e
        == 'n' || e == 'r' || e == 't' || e == 'v' {
        escape_simple(body, i)
    } else if e == '\n' || e == '\r' {
        escape_continuation(body, i)
    } else if '0' <= e && e <= '7' {
        escape_octal(body, i)
    } else if e == 'x' {
        escape_hex(body, i)
    } else if e == 'u' || e == 'U' {
        escape_universal(body, i)
    } else {
        proof {
            reveal(decode);
            assert(s[1] == e);
        }
        None
    }
}

pub open spec fn pow16(k: nat) -> nat
    decreases k,
{
    if k == 0 {
        1
    } else {
        16 * pow16((k - 1) as nat)
    }
}

pub proof fn lemma_pow16_bound(k: nat)
    requires
        k < 8,
    ensures
        pow16(k) <= 0x10000000,
        pow16(k + 1) == 16 * pow16(k),
{
    reveal_with_fuel(pow16, 9);
    assert(pow16(7) == 0x10000000);
    if k == 0 {
    } else if k == 1 {
    } else if k == 2 {
    } else if k == 3 {
    } else if k == 4 {
    } else if k == 5 {
    } else if k == 6 {
    } else {
    }
}

pub fn decode_c_string_literal_body(body: &[char]) -> (r: Option<Vec<u8>>)
    ensures
        match decode(body@) {
            Some(b) => r is Some && r->0@ == b,
            None => r is None,
        },
{
    let mut out: Vec<u8> = Vec::new();
    let mut i: usize = 0;
    assert(body@.skip(0) =~= body@);
    proof {
        match decode(body@) {
            Some(b) => {
                assert(Seq::<u8>::empty() + b =~= b);
            },
            None => {},
        }
    }
    while i < body.len()
        invariant
            i <= body.len(),
            decode(body@) == prefix_bytes(out@, decode(body@.skip(i as int))),
        decreases body.len() - i,
    {
        let step = escape_step(body, i);
        match step {
            None => {
                return None;
            },
            Some((bytes, adv)) => {
                let ghost before = out@;
                let mut bytes = bytes;
                let ghost b = bytes@;
                out.append(&mut bytes);
                proof {
                    match decode(body@.skip(i + adv)) {
                        Some(t) => {
                            assert(before + (b + t) =~= out@ + t);
                        },
                        None => {},
                    }
                }
                i = i + adv;
            },
        }
    }
    assert(body@.skip(i as int) =~= Seq::<char>::empty());
    proof {
        reveal(decode);
        assert(out@ + Seq::<u8>::empty() =~= out@);
    }
    Some(out)
}


// ---------------------------------------------------------------------------
// Go byte strings
// ---------------------------------------------------------------------------

/// One byte inside a Go string literal.
pub open spec fn byte_repr(b: u8) -> Seq<char> {
    if b == 10 {
        seq!['\\', 'n']
    } else if b == 13 {
        seq!['\\', 'r']
    } else if b == 9 {
        seq!['\\', 't']
    } else if b == 34 {
        seq!['\\', '"']
    } else if b == 92 {
        seq!['\\', '\\']
    } else if 0x20 <= b <= 0x7e {
        seq![b as char]
    } else {
        seq!['\\', 'x', crate::text::hex_digit_char(b as int / 16), crate::text::hex_digit_char(b as int % 16)]
    }
}

pub open spec fn go_bytes_body(bs: Seq<u8>) -> Seq<char>
    decreases bs.len(),
{
    if bs.len() == 0 {
        seq![]
    } else {
        go_bytes_body(bs.drop_last()) + byte_repr(bs.last())
    }
}

/// A Go interpreted string literal holding exactly `bs`.
pub open spec fn go_quoted(bs: Seq<u8>) -> Seq<char> {
    seq!['"'] + go_bytes_body(bs) + seq!['"']
}

fn quote_go_byte_string(bytes: &[u8]) -> (r: Vec<char>)
    ensures
        r@ == go_quoted(bytes@),
{
    let mut out: Vec<char> = Vec::new();
    out.push('"');
    let mut i: usize = 0;
    while i < bytes.len()
        invariant
            i <= bytes.len(),
            out@ == seq!['"'] + go_bytes_body(bytes@.take(i as int)),
        decreases bytes.len() - i,
    {
        let b = bytes[i];
        let ghost before = out@;
        assert(bytes@.take(i + 1).drop_last() =~= bytes@.take(i as int));
        assert(bytes@.take(i + 1).last() == b);
        if b == 10 {
            out.push('\\');
            out.push('n');
        } else if b == 13 {
            out.push('\\');
            out.push('r');
        } else if b == 9 {
            out.push('\\');
            out.push('t');
        } else if b == 34 {
            out.push('\\');
            out.push('"');
        } else if b == 92 {
            out.push('\\');
            out.push('\\');
        } else if 0x20 <= b && b <= 0x7e {
            out.push(b as char);
        } else {
            let (hi, lo) = crate::text::hex_byte(b);
            out.push('\\');
            out.push('x');
            out.push(hi);
            out.push(lo);
        }
        assert(out@ =~= before + byte_repr(b));
        i = i + 1;
    }
    out.push('"');
    assert(bytes@.take(i as int) =~= bytes@);
    out
}

/// A C string literal token as a Go string literal.
pub open spec fn string_literal(t: Seq<char>) -> Option<Seq<char>> {
    if t.len() >= 2 && t[0] == '"' && t.last() == '"' {
        match decode(t.subrange(1, t.len() - 1)) {
            Some(b) => Some(go_quoted(b)),
            None => None,
        }
    } else {
        None
    }
}

pub fn normalize_string_literal(token: &str) -> (r: Option<String>)
    ensures
        match string_literal(token@) {
            Some(s) => r is Some && r->0@ == s,
            None => r is None,
        },
{
    let t = chars_of(token);
    if !(t.len() >= 2 && t[0] == '"' && t[t.len() - 1] == '"') {
        return None;
    }
    let body = slice_vec(t.as_slice(), 1, t.len() - 1);
    match decode_c_string_literal_body(body.as_slice()) {
        Some(bytes) => {
            let q = quote_go_byte_string(bytes.as_slice());
            Some(string_of(q.as_slice()))
        },
        None => None,
    }
}

/// Each token as a Go string literal, or none if one is not a string literal.
pub open spec fn all_strings(ts: Seq<Seq<char>>) -> Option<Seq<Seq<char>>>
    decreases ts.len(),
{
    if ts.len() == 0 {
        Some(seq![])
    } else {
        match all_strings(ts.drop_last()) {
            Some(v) => match string_literal(ts.last()) {
                Some(q) => Some(v.push(q)),
                None => None,
            },
            None => None,
        }
    }
}

/// The macro value: wrapping parentheses removed, then the tokens read together as an
/// integer or floating literal, else each token as a string literal (adjacent literals
/// joined with `+`).
pub open spec fn macro_value(tokens: Seq<Seq<char>>) -> Option<(MacroConstantKind, Seq<char>)> {
    let ts = unwrap_parens(tokens);
    let joined = trim(join(ts, ""@));
    if ts.len() == 0 {
        None
    } else if joined.len() > 0 && is_integer_literal(joined) {
        Some((MacroConstantKind::Integer, joined))
    } else {
        match float_literal(join(ts, ""@)) {
            Some(f) => Some((MacroConstantKind::Float, f)),
            None => match all_strings(ts) {
                Some(v) => Some((MacroConstantKind::String, join(v, " + "@))),
                None => None,
            },
        }
    }
}

pub fn parse_macro_value(tokens: &[String]) -> (r: Option<ParsedMacroValue>)
    ensures
        match macro_value(views(tokens@)) {
            Some((k, v)) => r is Some && r->0.kind == k && r->0.value@ == v,
            None => r is None,
        },
{
    let (lo, hi) = strip_wrapping_parentheses(tokens);
    let ghost ts = views(tokens@).subrange(lo as int, hi as int);
    if lo == hi {
        return None;
    }
    let mut parts: Vec<String> = Vec::new();
    let mut i: usize = lo;
    while i < hi
        invariant
            lo <= i <= hi <= tokens.len(),
            ts == views(tokens@).subrange(lo as int, hi as int),
            views(parts@) =~= ts.take(i - lo),
        decreases hi - i,
    {
        let p = tokens[i].clone();
        let ghost before = parts@;
        parts.push(p);
        assert(views(parts@) =~= views(before).push(p@));
        assert(ts.take(i + 1 - lo) =~= ts.take(i - lo).push(ts[i - lo]));
        i = i + 1;
    }
    assert(ts.take(hi - lo) =~= ts);
    let joined = crate::text::join_strings(&parts, "");
    let jv = chars_of(joined.as_str());
    let t = trim_vec(jv.as_slice());
    if t.len() > 0 && is_supported_integer_literal(t.as_slice()) {
        return Some(ParsedMacroValue { kind: MacroConstantKind::Integer, value: string_of(t.as_slice()) });
    }
    match normalize_macro_float_literal(jv.as_slice()) {
        Some(f) => {
            return Some(ParsedMacroValue { kind: MacroConstantKind::Float, value: string_of(f.as_slice()) });
        },
        None => {},
    }
    let mut strings: Vec<String> = Vec::new();
    let mut k: usize = 0;
    assert(all_strings(ts.take(0)) == Some(Seq::<Seq<char>>::empty())) by {
        assert(ts.take(0) =~= Seq::<Seq<char>>::empty());
    }
    assert(macro_value(views(tokens@)) == match all_strings(ts) {
        Some(v) => Some((MacroConstantKind::String, join(v, " + "@))),
        None => None,
    });
    while k < parts.len()
        invariant
            k <= parts.len(),
            views(parts@) == ts,
            all_strings(ts.take(k as int)) == Some(views(strings@)),
            macro_value(views(tokens@)) == match all_strings(ts) {
                Some(v) => Some((MacroConstantKind::String, join(v, " + "@))),
                None => None,
            },
        decreases parts.len() - k,
    {
        assert(ts.take(k + 1).drop_last() =~= ts.take(k as int));
        assert(ts.take(k + 1).last() == parts@[k as int]@);
        match normalize_string_literal(parts[k].as_str()) {
            Some(q) => {
                let ghost before = strings@;
                strings.push(q);
                assert(views(strings@) =~= views(before).push(q@));
            },
            None => {
                proof {
                    lemma_all_strings_none(ts, k as int + 1);
                }
                return None;
            },
        }
        k = k + 1;
    }
    assert(ts.take(k as int) =~= ts);
    let value = crate::text::join_strings(&strings, " + ");
    Some(ParsedMacroValue { kind: MacroConstantKind::String, value })
}

pub proof fn lemma_all_strings_none(ts: Seq<Seq<char>>, k: int)
    requires
        0 <= k <= ts.len(),
        all_strings(ts.take(k)) is None,
    ensures
        all_strings(ts) is None,
    decreases ts.len() - k,
{
    if k < ts.len() {
        assert(ts.take(k + 1).drop_last() =~= ts.take(k));
        lemma_all_strings_none(ts, k + 1);
    } else {
        assert(ts.take(k) =~= ts);
    }
}

} // verus!
