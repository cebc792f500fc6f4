//! The compiler arguments handed to libclang, and what is read back from the compiler
//! driver. Running commands and looking at the file system is the caller's part: it hands
//! in the parent directory of the parse entry, a discovered SDK root and the discovered
//! fallback include directories.
use vstd::prelude::*;

use crate::case::{segments, segments_vec, vviews};
use crate::config::{extension, extension_of, Config};
use crate::ir::{contains_str, opt_view, strs};
use crate::text::{
    chars_of, eq_lit, push_str, push_string, seq_eq, starts_with, starts_with_lit, string_of,
    trim, trim_vec,
};

verus! {

/// The include directories listed by a verbose compiler driver run (`-E -v`) between
/// `#include <...> search starts here:` and `End of search list.`, each line trimmed;
/// blank lines and framework directories are left out.
pub open spec fn driver_scan(lines: Seq<Seq<char>>, in_list: bool) -> Seq<Seq<char>>
    decreases lines.len(),
{
    if lines.len() == 0 {
        seq![]
    } else {
        let t = trim(lines[0]);
        if t == "#include <...> search starts here:"@ {
            driver_scan(lines.drop_first(), true)
        } else if t == "End of search list."@ {
            seq![]
        } else if !in_list || t.len() == 0 || starts_with(t, "(framework directory)"@) {
            driver_scan(lines.drop_first(), in_list)
        } else {
            seq![t] + driver_scan(lines.drop_first(), in_list)
        }
    }
}

/// The include search list in a driver's verbose output, one candidate directory per
/// listed line (whether each exists is for the caller to test).
pub fn parse_driver_include_search_list(stderr: &str) -> (r: Vec<String>)
    ensures
        strs(r@) == driver_scan(segments(stderr@, '\n'), false),
{
    let v = chars_of(stderr);
    let lines = segments_vec(v.as_slice(), '\n');
    let ghost ls = vviews(lines@);
    let mut out: Vec<String> = Vec::new();
    let mut in_list = false;
    let mut i: usize = 0;
    assert(ls.skip(0) =~= ls);
    assert(strs(out@) + driver_scan(ls.skip(0), false) =~= driver_scan(ls, false));
    while i < lines.len()
        invariant_except_break
            i <= lines.len(),
            ls == vviews(lines@),
            strs(out@) + driver_scan(ls.skip(i as int), in_list) == driver_scan(ls, false),
            i == lines.len() ==> ls.skip(i as int) =~= Seq::<Seq<char>>::empty(),
            strs(out@) + Seq::<Seq<char>>::empty() =~= strs(out@),
        ensures
            strs(out@) == driver_scan(ls, false),
        decreases lines.len() - i,
    {
        let t = trim_vec(lines[i].as_slice());
        let ghost rest = ls.skip(i + 1);
        assert(ls.skip(i as int).drop_first() =~= rest);
        assert(ls.skip(i as int)[0] == lines@[i as int]@);
        if eq_lit(t.as_slice(), "#include <...> search starts here:") {
            in_list = true;
        } else if eq_lit(t.as_slice(), "End of search list.") {
            assert(strs(out@) + Seq::<Seq<char>>::empty() =~= strs(out@));
            break;
        } else if !in_list || t.len() == 0 || starts_with_lit(t.as_slice(), "(framework directory)") {
        } else {
            let ghost before = strs(out@);
            out.push(string_of(t.as_slice()));
            assert(strs(out@) =~= before.push(t@));
            assert(strs(out@) + driver_scan(rest, in_list) =~= before + (seq![t@] + driver_scan(
                rest,
                in_list,
            )));
        }
        i = i + 1;
    }
    out
}

pub open spec fn mentions(a: Seq<Seq<char>>, x: Seq<char>) -> bool {
    a.contains(x)
}

/// `-x c++` added unless a language is already chosen.
pub open spec fn with_language(a: Seq<Seq<char>>) -> Seq<Seq<char>> {
    if a.contains("-x"@) {
        a
    } else {
        a.push("-x"@).push("c++"@)
    }
}

/// `-std=c++17` added unless a standard is already chosen.
pub open spec fn with_standard(a: Seq<Seq<char>>) -> Seq<Seq<char>> {
    if exists|i: int| 0 <= i < a.len() && starts_with(a[i], "-std="@) {
        a
    } else {
        a.push("-std=c++17"@)
    }
}

/// Whether `inc` is already an include directory of `a`: as `-I inc`, `-isystem inc`,
/// `-Iinc` or `-isysteminc` (the value after a separate `-I` or `-isystem` is not read
/// as an argument of its own).
pub open spec fn has_include(a: Seq<Seq<char>>, inc: Seq<char>) -> bool
    decreases a.len(),
{
    if a.len() == 0 {
        false
    } else if a[0] == "-I"@ || a[0] == "-isystem"@ {
        if a.len() < 2 {
            false
        } else if a[1] == inc {
            true
        } else {
            has_include(a.skip(2), inc)
        }
    } else if a[0] == "-I"@ + inc || a[0] == "-isystem"@ + inc {
        true
    } else {
        has_include(a.drop_first(), inc)
    }
}

/// The parse entry's directory added as `-I<dir>` unless already an include directory.
pub open spec fn with_parent_include(a: Seq<Seq<char>>, parent: Option<Seq<char>>) -> Seq<Seq<char>> {
    match parent {
        None => a,
        Some(inc) => if has_include(a, inc) {
            a
        } else {
            a.push("-I"@ + inc)
        },
    }
}

/// A discovered SDK root added as `-isysroot <root>` unless one is already given.
pub open spec fn with_sysroot(a: Seq<Seq<char>>, sysroot: Option<Seq<char>>) -> Seq<Seq<char>> {
    match sysroot {
        None => a,
        Some(r) => if a.contains("-isysroot"@) {
            a
        } else {
            a.push("-isysroot"@).push(r)
        },
    }
}

/// Each fallback include directory added as `-isystem<dir>` unless `-I<dir>` or
/// `-isystem<dir>` is already present.
pub open spec fn with_fallbacks(a: Seq<Seq<char>>, incs: Seq<Seq<char>>) -> Seq<Seq<char>>
    decreases incs.len(),
{
    if incs.len() == 0 {
        a
    } else {
        let b = with_fallbacks(a, incs.drop_last());
        let inc = incs.last();
        if b.contains("-I"@ + inc) || b.contains("-isystem"@ + inc) {
            b
        } else {
            b.push("-isystem"@ + inc)
        }
    }
}

/// The full argument list for one parse entry.
pub open spec fn clang_args_for(
    given: Seq<Seq<char>>,
    parent: Option<Seq<char>>,
    sysroot: Option<Seq<char>>,
    fallbacks: Seq<Seq<char>>,
) -> Seq<Seq<char>> {
    with_fallbacks(
        with_sysroot(with_parent_include(with_standard(with_language(given)), parent), sysroot),
        fallbacks,
    )
}

fn any_starts_with(a: &Vec<String>, p: &str) -> (b: bool)
    ensures
        b == exists|i: int| 0 <= i < a@.len() && starts_with(strs(a@)[i], p@),
{
    let mut i: usize = 0;
    while i < a.len()
        invariant
            i <= a.len(),
            forall|k: int| 0 <= k < i ==> !starts_with(strs(a@)[k], p@),
        decreases a.len() - i,
    {
        let c = chars_of(a[i].as_str());
        assert(strs(a@)[i as int] == c@);
        if starts_with_lit(c.as_slice(), p) {
            return true;
        }
        i = i + 1;
    }
    false
}

fn joined(prefix: &str, s: &String) -> (r: String)
    ensures
        r@ == prefix@ + s@,
{
    let mut out = String::from_str(prefix);
    push_string(&mut out, s);
    out
}

fn include_listed(args: &Vec<String>, inc: &String) -> (b: bool)
    ensures
        b == has_include(strs(args@), inc@),
{
    let ghost a = strs(args@);
    let iv = chars_of(inc.as_str());
    let flag_i = joined("-I", inc);
    let flag_sys = joined("-isystem", inc);
    let fi = chars_of(flag_i.as_str());
    let fs = chars_of(flag_sys.as_str());
    let mut i: usize = 0;
    assert(a.skip(0) =~= a);
    while i < args.len()
        invariant
            i <= args.len(),
            a == strs(args@),
            iv@ == inc@,
            fi@ == "-I"@ + inc@,
            fs@ == "-isystem"@ + inc@,
            has_include(a.skip(i as int), inc@) == has_include(a, inc@),
        decreases args.len() - i,
    {
        let c = chars_of(args[i].as_str());
        assert(a.skip(i as int)[0] == c@);
        if eq_lit(c.as_slice(), "-I") || eq_lit(c.as_slice(), "-isystem") {
            if i + 1 >= args.len() {
                return false;
            }
            let n = chars_of(args[i + 1].as_str());
            assert(a.skip(i as int)[1] == n@);
            if seq_eq(n.as_slice(), iv.as_slice()) {
                return true;
            }
            assert(a.skip(i as int).skip(2) =~= a.skip(i + 2));
            i = i + 2;
        } else {
            if seq_eq(c.as_slice(), fi.as_slice()) || seq_eq(c.as_slice(), fs.as_slice()) {
                return true;
            }
            assert(a.skip(i as int).drop_first() =~= a.skip(i + 1));
            i = i + 1;
        }
    }
    assert(a.skip(i as int) =~= Seq::<Seq<char>>::empty());
    false
}

fn push_owned(args: &mut Vec<String>, s: String)
    ensures
        strs(final(args)@) == strs(old(args)@).push(s@),
{
    let ghost before = strs(args@);
    args.push(s);
    assert(strs(args@) =~= before.push(s@));
}

/// The libclang arguments for a parse entry: the configured arguments, then `-x c++` and
/// `-std=c++17` where no language or standard is chosen, the entry's directory, an SDK
/// root and the fallback include directories, each only where not already present.
pub fn collect_clang_args(
    config: &Config,
    parse_entry_parent: Option<String>,
    sysroot: Option<String>,
    fallback_includes: &Vec<String>,
) -> (r: Vec<String>)
    ensures
        strs(r@) == clang_args_for(
            config@.input.clang_args,
            opt_view(parse_entry_parent),
            opt_view(sysroot),
            strs(fallback_includes@),
        ),
{
    let mut args = crate::ir::copy_strings(&config.input.clang_args);
    let ghost a0 = strs(args@);
    let x = chars_of("-x");
    if !contains_str(&args, x.as_slice()) {
        push_owned(&mut args, String::from_str("-x"));
        push_owned(&mut args, String::from_str("c++"));
    }
    assert(strs(args@) == with_language(a0));
    let ghost a1 = strs(args@);
    if !any_starts_with(&args, "-std=") {
        push_owned(&mut args, String::from_str("-std=c++17"));
    }
    assert(strs(args@) == with_standard(a1));
    let ghost a2 = strs(args@);
    match &parse_entry_parent {
        Some(inc) => {
            if !include_listed(&args, inc) {
                push_owned(&mut args, joined("-I", inc));
            }
        },
        None => {},
    }
    assert(strs(args@) == with_parent_include(a2, opt_view(parse_entry_parent)));
    let ghost a3 = strs(args@);
    match sysroot {
        Some(root) => {
            let flag = chars_of("-isysroot");
            if !contains_str(&args, flag.as_slice()) {
                push_owned(&mut args, String::from_str("-isysroot"));
                push_owned(&mut args, root);
            }
        },
        None => {},
    }
    assert(strs(args@) == with_sysroot(a3, opt_view(sysroot)));
    let ghost a4 = strs(args@);
    let ghost incs = strs(fallback_includes@);
    let mut i: usize = 0;
    assert(incs.take(0) =~= Seq::<Seq<char>>::empty());
    while i < fallback_includes.len()
        invariant
            i <= fallback_includes.len(),
            incs == strs(fallback_includes@),
            strs(args@) == with_fallbacks(a4, incs.take(i as int)),
        decreases fallback_includes.len() - i,
    {
        let inc = &fallback_includes[i];
        assert(incs[i as int] == inc@);
        assert(incs.take(i + 1).drop_last() =~= incs.take(i as int));
        let with_i = joined("-I", inc);
        let with_sys = joined("-isystem", inc);
        let ci = chars_of(with_i.as_str());
        let cs = chars_of(with_sys.as_str());
        if !contains_str(&args, ci.as_slice()) && !contains_str(&args, cs.as_slice()) {
            push_owned(&mut args, with_sys);
        }
        i = i + 1;
    }
    assert(incs.take(i as int) =~= incs);
    args
}

/// Source files are recognised by their extension.
pub open spec fn is_source_path(p: Seq<char>) -> bool {
    match extension(p) {
        Some(e) => e == "c"@ || e == "cc"@ || e == "cpp"@ || e == "cxx"@,
        None => false,
    }
}

pub fn is_source_translation_unit_file(path: &str) -> (b: bool)
    ensures
        b == is_source_path(path@),
{
    let p = chars_of(path);
    match extension_of(p.as_slice()) {
        Some(e) => {
            let e = e.as_slice();
            eq_lit(e, "c") || eq_lit(e, "cc") || eq_lit(e, "cpp") || eq_lit(e, "cxx")
        },
        None => false,
    }
}

pub fn is_header_file(path: &str) -> (b: bool)
    ensures
        b == crate::config::is_header_path(path@),
{
    crate::config::is_supported_header_path(path)
}

} // verus!
