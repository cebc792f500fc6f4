//! Relative spellings of `/`-separated paths, as the IR dump writes its source headers.
use vstd::prelude::*;

use crate::ir::strs;
use crate::text::{chars_of, join, string_of};

verus! {

/// `acc` with the component `cur` added, unless it is empty or `.`.
pub open spec fn flush_component(acc: Seq<Seq<char>>, cur: Seq<char>) -> Seq<Seq<char>> {
    if cur.len() == 0 || cur == seq!['.'] {
        acc
    } else {
        acc.push(cur)
    }
}

/// The components of `p` from position `i` on, with `cur` the component being read and
/// `acc` those already read.
pub open spec fn components_from(p: Seq<char>, i: int, cur: Seq<char>, acc: Seq<Seq<char>>) -> Seq<
    Seq<char>,
>
    decreases p.len() - i,
{
    if i >= p.len() {
        flush_component(acc, cur)
    } else if p[i] == '/' {
        components_from(p, i + 1, seq![], flush_component(acc, cur))
    } else {
        components_from(p, i + 1, cur.push(p[i]), acc)
    }
}

/// The non-empty components of a path other than `.`, in order.
pub open spec fn path_components(p: Seq<char>) -> Seq<Seq<char>> {
    components_from(p, 0, seq![], seq![])
}

/// The length of the longest common prefix of `a` and `b` from `k` on.
pub open spec fn common_from(a: Seq<Seq<char>>, b: Seq<Seq<char>>, k: int) -> int
    decreases a.len() - k,
{
    if 0 <= k < a.len() && k < b.len() && a[k] == b[k] {
        common_from(a, b, k + 1)
    } else {
        k
    }
}

/// The steps from directory `base` to `target`: up out of every component of `base`
/// below the common prefix, then down into the rest of `target`.
pub open spec fn relative_steps(target: Seq<char>, base: Seq<char>) -> Seq<Seq<char>> {
    let t = path_components(target);
    let b = path_components(base);
    let k = common_from(t, b, 0);
    Seq::new((b.len() - k) as nat, |i: int| ".."@) + t.skip(k)
}

/// `target` spelled relative to the directory `base` (both absolute and normalized):
/// `.` when they are the same.
pub open spec fn relative_path(target: Seq<char>, base: Seq<char>) -> Seq<char> {
    let steps = relative_steps(target, base);
    if steps.len() == 0 {
        "."@
    } else {
        join(steps, "/"@)
    }
}

proof fn lemma_common_from_bounds(a: Seq<Seq<char>>, b: Seq<Seq<char>>, k: int)
    requires
        0 <= k <= a.len(),
        k <= b.len(),
    ensures
        k <= common_from(a, b, k) <= a.len(),
        common_from(a, b, k) <= b.len(),
    decreases a.len() - k,
{
    if k < a.len() && k < b.len() && a[k] == b[k] {
        lemma_common_from_bounds(a, b, k + 1);
    }
}

fn path_components_exec(p: &str) -> (r: Vec<String>)
    ensures
        strs(r@) == path_components(p@),
{
    let v = chars_of(p);
    let mut acc: Vec<String> = Vec::new();
    let mut cur: Vec<char> = Vec::new();
    let mut i: usize = 0;
    assert(strs(acc@) =~= Seq::<Seq<char>>::empty());
    assert(cur@ =~= Seq::<char>::empty());
    while i < v.len()
        invariant
            i <= v.len(),
            v@ == p@,
            components_from(v@, i as int, cur@, strs(acc@)) == path_components(p@),
        decreases v.len() - i,
    {
        if v[i] == '/' {
            let ghost before = strs(acc@);
            if !(cur.len() == 0 || (cur.len() == 1 && cur[0] == '.')) {
                acc.push(string_of(cur.as_slice()));
                assert(strs(acc@) =~= before.push(cur@));
            } else {
                if cur.len() == 1 {
                    assert(cur@ =~= seq!['.']);
                }
            }
            assert(strs(acc@) == flush_component(before, cur@)) by {
                if cur.len() == 1 && cur[0] != '.' {
                    assert(cur@ != seq!['.']) by {
                        assert(cur@[0] != seq!['.'][0]);
                    }
                }
                if cur.len() > 1 {
                    assert(cur@.len() != seq!['.'].len());
                }
            }
            cur = Vec::new();
            assert(cur@ =~= Seq::<char>::empty());
        } else {
            cur.push(v[i]);
        }
        i = i + 1;
    }
    let ghost before = strs(acc@);
    if !(cur.len() == 0 || (cur.len() == 1 && cur[0] == '.')) {
        acc.push(string_of(cur.as_slice()));
        assert(strs(acc@) =~= before.push(cur@));
        if cur.len() == 1 {
            assert(cur@ != seq!['.']) by {
                assert(cur@[0] != seq!['.'][0]);
            }
        } else {
            assert(cur@.len() != seq!['.'].len());
        }
    } else {
        if cur.len() == 1 {
            assert(cur@ =~= seq!['.']);
        }
    }
    acc
}

/// `target` written relative to the directory `base`; both are absolute, normalized
/// paths (as the file system canonicalizes them).
pub fn relative_path_text(target: &str, base: &str) -> (r: String)
    ensures
        r@ == relative_path(target@, base@),
{
    let t = path_components_exec(target);
    let b = path_components_exec(base);
    let ghost tv = strs(t@);
    let ghost bv = strs(b@);
    let mut k: usize = 0;
    assert(common_from(tv, bv, 0) == common_from(tv, bv, k as int));
    while k < t.len() && k < b.len() && crate::text::str_eq(t[k].as_str(), b[k].as_str())
        invariant
            k <= t.len(),
            k <= b.len(),
            tv == strs(t@),
            bv == strs(b@),
            common_from(tv, bv, 0) == common_from(tv, bv, k as int),
        decreases t.len() - k,
    {
        assert(tv[k as int] == t@[k as int]@ && bv[k as int] == b@[k as int]@);
        k = k + 1;
    }
    proof {
        if k < t.len() && k < b.len() {
            assert(tv[k as int] == t@[k as int]@ && bv[k as int] == b@[k as int]@);
        }
    }
    assert(common_from(tv, bv, k as int) == k);
    let ghost steps = relative_steps(target@, base@);
    let mut parts: Vec<String> = Vec::new();
    let mut j: usize = k;
    while j < b.len()
        invariant
            k <= j <= b.len(),
            strs(parts@) =~= Seq::new((j - k) as nat, |i: int| ".."@),
        decreases b.len() - j,
    {
        let ghost before = strs(parts@);
        let up = String::from_str("..");
        parts.push(up);
        assert(strs(parts@) =~= before.push(".."@));
        j = j + 1;
    }
    let ghost ups = strs(parts@);
    let mut j: usize = k;
    while j < t.len()
        invariant
            k <= j <= t.len(),
            tv == strs(t@),
            strs(parts@) =~= ups + tv.skip(k as int).take(j - k),
        decreases t.len() - j,
    {
        let ghost before = strs(parts@);
        parts.push(t[j].clone());
        assert(tv[j as int] == t@[j as int]@);
        assert(strs(parts@) =~= before.push(tv[j as int]));
        assert(tv.skip(k as int).take(j + 1 - k) =~= tv.skip(k as int).take(j - k).push(tv[j as int]));
        j = j + 1;
    }
    assert(tv.skip(k as int).take(t.len() - k) =~= tv.skip(k as int));
    assert(strs(parts@) =~= steps);
    if parts.len() == 0 {
        String::from_str(".")
    } else {
        assert(crate::text::views(parts@) =~= strs(parts@));
        crate::text::join_strings(&parts, "/")
    }
}

} // verus!
