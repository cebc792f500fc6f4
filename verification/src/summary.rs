//! The one-paragraph reports printed after `check` and `generate`.
use vstd::prelude::*;

use crate::ir::SkippedDeclaration;
use crate::text::{
    chars_of, contains_lit, contains_seq, decimal, decimal_string, push_str, push_string, rfind,
    rfind_lit, seq_eq, slice_vec, string_of,
};

verus! {

/// Counts describing a checked header set and the declarations left out of its wrappers.
pub struct CheckSummary {
    pub headers: usize,
    pub records: usize,
    pub functions: usize,
    pub enums: usize,
    pub abi_functions: usize,
    pub skipped_declarations: Vec<SkippedDeclaration>,
}

/// A kind of skipped declaration and what a user can do about it.
#[derive(Debug, Clone, Copy)]
pub struct SkippedCategory {
    pub label: &'static str,
    pub action: &'static str,
}

/// The category labels, in ascending order.
pub open spec fn category_labels() -> Seq<Seq<char>> {
    seq![
        "abstract class"@,
        "double pointer"@,
        "function pointer"@,
        "operator"@,
        "raw by-value object"@,
        "unsupported type"@,
    ]
}

/// The label under which a skip reason is filed.
pub open spec fn category_label(reason: Seq<char>) -> Seq<char> {
    if contains_seq(reason, "abstract class"@) {
        "abstract class"@
    } else if contains_seq(reason, "double-pointer"@) {
        "double pointer"@
    } else if contains_seq(reason, "function pointer"@) {
        "function pointer"@
    } else if contains_seq(reason, "operator declarations"@) {
        "operator"@
    } else if contains_seq(reason, "by-value"@) {
        "raw by-value object"@
    } else {
        "unsupported type"@
    }
}

/// The advice given for a category label; an unknown label is advised as an
/// unsupported type.
pub open spec fn category_action(label: Seq<char>) -> Seq<char> {
    if label == "abstract class"@ {
        "instantiate a concrete subclass or expose factory methods returning pointers"@
    } else if label == "double pointer"@ {
        "replace pointer-to-pointer output with a supported return value or adapter"@
    } else if label == "function pointer"@ {
        "use a named callback typedef or an adapter function"@
    } else if label == "operator"@ {
        "expose a named method or free-function adapter instead"@
    } else if label == "raw by-value object"@ {
        "pass objects by pointer/reference or expose a handle-backed adapter"@
    } else {
        "inspect the IR and narrow the wrapped surface or add an adapter header"@
    }
}

pub open spec fn known_label(label: Seq<char>) -> bool {
    category_labels().contains(label)
}

/// The category of a label, an unknown label standing for an unsupported type.
pub fn skipped_category_for_label(label: &str) -> (r: SkippedCategory)
    ensures
        r.label@ == (if known_label(label@) {
            label@
        } else {
            "unsupported type"@
        }),
        r.action@ == category_action(label@),
{
    let l = chars_of(label);
    proof {
        reveal_strlit("abstract class");
        reveal_strlit("double pointer");
        reveal_strlit("function pointer");
        reveal_strlit("operator");
        reveal_strlit("raw by-value object");
        reveal_strlit("unsupported type");
        assert(category_labels()[0] == "abstract class"@);
        assert(category_labels()[1] == "double pointer"@);
        assert(category_labels()[2] == "function pointer"@);
        assert(category_labels()[3] == "operator"@);
        assert(category_labels()[4] == "raw by-value object"@);
        assert(category_labels()[5] == "unsupported type"@);
    }
    if seq_eq(l.as_slice(), chars_of("abstract class").as_slice()) {
        SkippedCategory {
            label: "abstract class",
            action: "instantiate a concrete subclass or expose factory methods returning pointers",
        }
    } else if seq_eq(l.as_slice(), chars_of("double pointer").as_slice()) {
        SkippedCategory {
            label: "double pointer",
            action: "replace pointer-to-pointer output with a supported return value or adapter",
        }
    } else if seq_eq(l.as_slice(), chars_of("function pointer").as_slice()) {
        SkippedCategory {
            label: "function pointer",
            action: "use a named callback typedef or an adapter function",
        }
    } else if seq_eq(l.as_slice(), chars_of("operator").as_slice()) {
        SkippedCategory {
            label: "operator",
            action: "expose a named method or free-function adapter instead",
        }
    } else if seq_eq(l.as_slice(), chars_of("raw by-value object").as_slice()) {
        SkippedCategory {
            label: "raw by-value object",
            action: "pass objects by pointer/reference or expose a handle-backed adapter",
        }
    } else {
        proof {
            if known_label(label@) {
                let k = choose|k: int| 0 <= k < 6 && category_labels()[k] == label@;
                assert(k == 5);
            }
        }
        SkippedCategory {
            label: "unsupported type",
            action: "inspect the IR and narrow the wrapped surface or add an adapter header",
        }
    }
}

/// The category a skip reason falls under.
pub fn skipped_category(reason: &str) -> (r: SkippedCategory)
    ensures
        r.label@ == category_label(reason@),
        r.action@ == category_action(category_label(reason@)),
{
    let v = chars_of(reason);
    let s = v.as_slice();
    proof {
        reveal_strlit("abstract class");
        reveal_strlit("double pointer");
        reveal_strlit("function pointer");
        reveal_strlit("operator");
        reveal_strlit("raw by-value object");
        reveal_strlit("unsupported type");
        assert(category_labels()[0] == "abstract class"@);
        assert(category_labels()[1] == "double pointer"@);
        assert(category_labels()[2] == "function pointer"@);
        assert(category_labels()[3] == "operator"@);
        assert(category_labels()[4] == "raw by-value object"@);
        assert(category_labels()[5] == "unsupported type"@);
    }
    if contains_lit(s, "abstract class") {
        skipped_category_for_label("abstract class")
    } else if contains_lit(s, "double-pointer") {
        skipped_category_for_label("double pointer")
    } else if contains_lit(s, "function pointer") {
        skipped_category_for_label("function pointer")
    } else if contains_lit(s, "operator declarations") {
        skipped_category_for_label("operator")
    } else if contains_lit(s, "by-value") {
        skipped_category_for_label("raw by-value object")
    } else {
        skipped_category_for_label("unsupported type")
    }
}

pub open spec fn skipped_view(v: Seq<SkippedDeclaration>) -> Seq<(Seq<char>, Seq<char>)> {
    v.map_values(|s: SkippedDeclaration| (s.cpp_name@, s.reason@))
}

/// How many of the skipped declarations fall under `label`.
pub open spec fn label_count(skipped: Seq<(Seq<char>, Seq<char>)>, label: Seq<char>) -> nat
    decreases skipped.len(),
{
    if skipped.len() == 0 {
        0
    } else {
        label_count(skipped.drop_last(), label) + (if category_label(skipped.last().1) == label {
            1nat
        } else {
            0nat
        })
    }
}

/// The summary line of one category: its count and advice, or nothing when no
/// declaration falls under it.
pub open spec fn category_line(skipped: Seq<(Seq<char>, Seq<char>)>, l: Seq<char>) -> Seq<char> {
    let n = label_count(skipped, l);
    if n > 0 {
        "\n- "@ + l + ": "@ + decimal(n) + " skipped; "@ + category_action(l)
    } else {
        seq![]
    }
}

/// One line per category that has skipped declarations, in the order of `labels`.
pub open spec fn category_lines(skipped: Seq<(Seq<char>, Seq<char>)>, labels: Seq<Seq<char>>) -> Seq<
    char,
>
    decreases labels.len(),
{
    if labels.len() == 0 {
        seq![]
    } else {
        category_lines(skipped, labels.drop_last()) + category_line(skipped, labels.last())
    }
}

proof fn lemma_category_lines(sv: Seq<(Seq<char>, Seq<char>)>)
    ensures
        category_lines(sv, category_labels()) == category_line(sv, "abstract class"@)
            + category_line(sv, "double pointer"@) + category_line(sv, "function pointer"@)
            + category_line(sv, "operator"@) + category_line(sv, "raw by-value object"@)
            + category_line(sv, "unsupported type"@),
{
    let l0 = "abstract class"@;
    let l1 = "double pointer"@;
    let l2 = "function pointer"@;
    let l3 = "operator"@;
    let l4 = "raw by-value object"@;
    let l5 = "unsupported type"@;
    let s6 = seq![l0, l1, l2, l3, l4, l5];
    let s5 = seq![l0, l1, l2, l3, l4];
    let s4 = seq![l0, l1, l2, l3];
    let s3 = seq![l0, l1, l2];
    let s2 = seq![l0, l1];
    let s1 = seq![l0];
    assert(s6.drop_last() =~= s5);
    assert(s5.drop_last() =~= s4);
    assert(s4.drop_last() =~= s3);
    assert(s3.drop_last() =~= s2);
    assert(s2.drop_last() =~= s1);
    assert(s1.drop_last() =~= Seq::<Seq<char>>::empty());
    assert(s1.last() == l0);
    assert(category_lines(sv, Seq::<Seq<char>>::empty()) == Seq::<char>::empty());
    assert(category_lines(sv, s1) == Seq::<char>::empty() + category_line(sv, l0));
    assert(category_lines(sv, s1) =~= category_line(sv, l0));
    assert(category_lines(sv, s2) == category_lines(sv, s1) + category_line(sv, l1));
    assert(category_lines(sv, s3) == category_lines(sv, s2) + category_line(sv, l2));
    assert(category_lines(sv, s4) == category_lines(sv, s3) + category_line(sv, l3));
    assert(category_lines(sv, s5) == category_lines(sv, s4) + category_line(sv, l4));
    assert(category_lines(sv, s6) == category_lines(sv, s5) + category_line(sv, l5));
}

/// One entry per listed skipped declaration: its category, name, reason and advice.
pub open spec fn detail_lines(skipped: Seq<(Seq<char>, Seq<char>)>) -> Seq<char>
    decreases skipped.len(),
{
    if skipped.len() == 0 {
        seq![]
    } else {
        let (name, reason) = skipped.last();
        let l = category_label(reason);
        detail_lines(skipped.drop_last()) + "\n- ["@ + l + "] "@ + name + ": "@ + reason
            + "\n  action: "@ + category_action(l)
    }
}

/// The `check` report: the counts, then, where declarations were skipped, a warning, one
/// line per category and the details of the first five.
pub open spec fn check_report(
    headers: nat,
    records: nat,
    functions: nat,
    enums: nat,
    abi: nat,
    skipped: Seq<(Seq<char>, Seq<char>)>,
) -> Seq<char> {
    if skipped.len() == 0 {
        "ok: "@ + decimal(headers) + " headers, "@ + decimal(records) + " records, "@ + decimal(
            functions,
        ) + " functions, "@ + decimal(enums) + " enums, "@ + decimal(abi) + " abi functions"@
    } else {
        "ok with warnings: "@ + decimal(headers) + " headers, "@ + decimal(records)
            + " records, "@ + decimal(functions) + " functions, "@ + decimal(enums)
            + " enums, "@ + decimal(abi) + " abi functions, "@ + decimal(skipped.len())
            + " skipped declarations\nwarning: skipped declarations are omitted from generated wrappers and Go facades\nskip summary:"@
            + category_lines(skipped, category_labels()) + "\nskipped declaration details:"@
            + detail_lines(skipped.take(if skipped.len() > 5 {
            5
        } else {
            skipped.len() as int
        })) + (if skipped.len() > 5 {
            "\n... and "@ + decimal((skipped.len() - 5) as nat) + " more skipped declarations"@
        } else {
            seq![]
        })
    }
}

fn count_label(skipped: &Vec<SkippedDeclaration>, label: &str) -> (n: usize)
    ensures
        n == label_count(skipped_view(skipped@), label@),
{
    let ghost sv = skipped_view(skipped@);
    let lv = chars_of(label);
    let mut n: usize = 0;
    let mut i: usize = 0;
    assert(sv.take(0) =~= Seq::<(Seq<char>, Seq<char>)>::empty());
    while i < skipped.len()
        invariant
            i <= skipped.len(),
            sv == skipped_view(skipped@),
            lv@ == label@,
            n == label_count(sv.take(i as int), label@),
            n <= i,
        decreases skipped.len() - i,
    {
        let c = skipped_category(skipped[i].reason.as_str());
        assert(sv.take(i + 1).drop_last() =~= sv.take(i as int));
        assert(sv[i as int].1 == skipped@[i as int].reason@);
        let cv = chars_of(c.label);
        if seq_eq(cv.as_slice(), lv.as_slice()) {
            n = n + 1;
        }
        i = i + 1;
    }
    assert(sv.take(i as int) =~= sv);
    n
}

fn push_category_line(out: &mut String, skipped: &Vec<SkippedDeclaration>, label: &str)
    requires
        known_label(label@),
    ensures
        final(out)@ == old(out)@ + category_line(skipped_view(skipped@), label@),
{
    let n = count_label(skipped, label);
    if n > 0 {
        let c = skipped_category_for_label(label);
        push_str(out, "\n- ");
        push_str(out, label);
        push_str(out, ": ");
        let d = decimal_string(n);
        push_string(out, &d);
        push_str(out, " skipped; ");
        push_str(out, c.action);
    } else {
        assert(out@ + Seq::<char>::empty() =~= out@);
    }
}

fn counts_prefix(out: &mut String, summary: &CheckSummary)
    ensures
        final(out)@ == old(out)@ + decimal(summary.headers as nat) + " headers, "@ + decimal(
            summary.records as nat,
        ) + " records, "@ + decimal(summary.functions as nat) + " functions, "@ + decimal(
            summary.enums as nat,
        ) + " enums, "@ + decimal(summary.abi_functions as nat),
{
    push_string(out, &decimal_string(summary.headers));
    push_str(out, " headers, ");
    push_string(out, &decimal_string(summary.records));
    push_str(out, " records, ");
    push_string(out, &decimal_string(summary.functions));
    push_str(out, " functions, ");
    push_string(out, &decimal_string(summary.enums));
    push_str(out, " enums, ");
    push_string(out, &decimal_string(summary.abi_functions));
}

fn push_category_lines(out: &mut String, skipped: &Vec<SkippedDeclaration>)
    ensures
        final(out)@ == old(out)@ + category_lines(skipped_view(skipped@), category_labels()),
{
    let ghost sv = skipped_view(skipped@);
    proof {
        lemma_category_lines(sv);
        reveal_strlit("abstract class");
        reveal_strlit("double pointer");
        reveal_strlit("function pointer");
        reveal_strlit("operator");
        reveal_strlit("raw by-value object");
        reveal_strlit("unsupported type");
        let ls = category_labels();
        assert(ls[0] == "abstract class"@);
        assert(ls[1] == "double pointer"@);
        assert(ls[2] == "function pointer"@);
        assert(ls[3] == "operator"@);
        assert(ls[4] == "raw by-value object"@);
        assert(ls[5] == "unsupported type"@);
        assert(known_label(ls[0]));
        assert(known_label(ls[1]));
        assert(known_label(ls[2]));
        assert(known_label(ls[3]));
        assert(known_label(ls[4]));
        assert(known_label(ls[5]));
    }
    push_category_line(out, skipped, "abstract class");
    push_category_line(out, skipped, "double pointer");
    push_category_line(out, skipped, "function pointer");
    push_category_line(out, skipped, "operator");
    push_category_line(out, skipped, "raw by-value object");
    push_category_line(out, skipped, "unsupported type");
}

fn push_details(out: &mut String, skipped: &Vec<SkippedDeclaration>, limit: usize)
    requires
        limit <= skipped@.len(),
    ensures
        final(out)@ == old(out)@ + detail_lines(skipped_view(skipped@).take(limit as int)),
{
    let ghost sv = skipped_view(skipped@);
    let ghost mid = out@;
    let mut i: usize = 0;
    assert(sv.take(0) =~= Seq::<(Seq<char>, Seq<char>)>::empty());
    assert(mid + Seq::<char>::empty() =~= mid);
    while i < limit
        invariant
            i <= limit <= skipped.len(),
            sv == skipped_view(skipped@),
            out@ == mid + detail_lines(sv.take(i as int)),
        decreases limit - i,
    {
        let item = &skipped[i];
        assert(sv[i as int] == (item.cpp_name@, item.reason@));
        assert(sv.take(i + 1).drop_last() =~= sv.take(i as int));
        assert(sv.take(i + 1).last() == sv[i as int]);
        let c = skipped_category(item.reason.as_str());
        push_str(out, "\n- [");
        push_str(out, c.label);
        push_str(out, "] ");
        push_string(out, &item.cpp_name);
        push_str(out, ": ");
        push_string(out, &item.reason);
        push_str(out, "\n  action: ");
        push_str(out, c.action);
        i = i + 1;
    }
}

/// The `check` report for `summary`.
pub fn format_check_summary(summary: &CheckSummary) -> (r: String)
    ensures
        r@ == check_report(
            summary.headers as nat,
            summary.records as nat,
            summary.functions as nat,
            summary.enums as nat,
            summary.abi_functions as nat,
            skipped_view(summary.skipped_declarations@),
        ),
{
    let skipped = &summary.skipped_declarations;
    let mut out = String::new();
    if skipped.len() == 0 {
        push_str(&mut out, "ok: ");
        counts_prefix(&mut out, summary);
        push_str(&mut out, " abi functions");
        return out;
    }
    push_str(&mut out, "ok with warnings: ");
    counts_prefix(&mut out, summary);
    push_str(&mut out, " abi functions, ");
    push_string(&mut out, &decimal_string(skipped.len()));
    push_str(
        &mut out,
        " skipped declarations\nwarning: skipped declarations are omitted from generated wrappers and Go facades\nskip summary:",
    );
    push_category_lines(&mut out, skipped);
    push_str(&mut out, "\nskipped declaration details:");
    let limit: usize = if skipped.len() > 5 {
        5
    } else {
        skipped.len()
    };
    push_details(&mut out, skipped, limit);
    if skipped.len() > 5 {
        push_str(&mut out, "\n... and ");
        push_string(&mut out, &decimal_string(skipped.len() - 5));
        push_str(&mut out, " more skipped declarations");
    } else {
        assert(out@ + Seq::<char>::empty() =~= out@);
    }
    out
}

/// The directory part of a path: what precedes its last `/`, or nothing.
pub open spec fn parent_dir(p: Seq<char>) -> Seq<char> {
    match rfind(p, "/"@) {
        Some(i) => p.take(i),
        None => seq![],
    }
}

/// The distinct directories of `files`, in the order they first appear.
pub open spec fn dirs_of(files: Seq<Seq<char>>) -> Seq<Seq<char>>
    decreases files.len(),
{
    if files.len() == 0 {
        seq![]
    } else {
        let prev = dirs_of(files.drop_last());
        let d = parent_dir(files.last());
        if prev.contains(d) {
            prev
        } else {
            prev.push(d)
        }
    }
}

/// The files written by one `generate` run.
pub struct GenerationSummary {
    pub files: Vec<String>,
}

impl GenerationSummary {
    pub fn new() -> (r: GenerationSummary)
        ensures
            r.files@.len() == 0,
    {
        GenerationSummary { files: Vec::new() }
    }

    /// Records that the file at `path` was written.
    pub fn record_file(&mut self, path: &str)
        ensures
            crate::text::views(final(self).files@) == crate::text::views(old(self).files@).push(
                path@,
            ),
    {
        let ghost before = crate::text::views(self.files@);
        self.files.push(String::from_str(path));
        assert(crate::text::views(self.files@) =~= before.push(path@));
    }

    pub fn generated_file_count(&self) -> (n: usize)
        ensures
            n == self.files@.len(),
    {
        self.files.len()
    }

    /// The directories written to, each once, in the order they were first written.
    pub fn output_dirs(&self) -> (r: Vec<String>)
        ensures
            crate::text::views(r@) == dirs_of(crate::text::views(self.files@)),
    {
        let ghost fs = crate::text::views(self.files@);
        let mut out: Vec<String> = Vec::new();
        let mut i: usize = 0;
        assert(fs.take(0) =~= Seq::<Seq<char>>::empty());
        while i < self.files.len()
            invariant
                i <= self.files.len(),
                fs == crate::text::views(self.files@),
                crate::text::views(out@) == dirs_of(fs.take(i as int)),
            decreases self.files.len() - i,
        {
            assert(fs.take(i + 1).drop_last() =~= fs.take(i as int));
            assert(fs[i as int] == self.files@[i as int]@);
            let v = chars_of(self.files[i].as_str());
            proof {
                crate::text::lemma_rfind_bounds(v@, "/"@);
            }
            let d = match rfind_lit(v.as_slice(), "/") {
                Some(k) => slice_vec(v.as_slice(), 0, k),
                None => Vec::new(),
            };
            assert(d@ =~= parent_dir(fs[i as int]));
            if !crate::ir::contains_str(&out, d.as_slice()) {
                let ghost before = crate::text::views(out@);
                out.push(string_of(d.as_slice()));
                assert(crate::text::views(out@) =~= before.push(d@));
            }
            i = i + 1;
        }
        assert(fs.take(i as int) =~= fs);
        out
    }
}

/// The `generate` report: how many files were written, and where.
pub open spec fn generation_report(n: nat, dirs: Seq<Seq<char>>) -> Seq<char> {
    let label = if n == 1 {
        "file"@
    } else {
        "files"@
    };
    let head = "generated "@ + decimal(n) + " "@ + label;
    if dirs.len() == 1 {
        head + " in "@ + dirs[0]
    } else if dirs.len() == 0 {
        head
    } else {
        head + " in "@ + decimal(dirs.len()) + " output dirs"@
    }
}

pub fn format_generation_summary(summary: &GenerationSummary) -> (r: String)
    ensures
        r@ == generation_report(
            summary.files@.len(),
            dirs_of(crate::text::views(summary.files@)),
        ),
{
    let n = summary.generated_file_count();
    let dirs = summary.output_dirs();
    let mut out = String::from_str("generated ");
    push_string(&mut out, &decimal_string(n));
    push_str(&mut out, " ");
    if n == 1 {
        push_str(&mut out, "file");
    } else {
        push_str(&mut out, "files");
    }
    if dirs.len() == 1 {
        push_str(&mut out, " in ");
        push_string(&mut out, &dirs[0]);
    } else if dirs.len() > 1 {
        push_str(&mut out, " in ");
        push_string(&mut out, &decimal_string(dirs.len()));
        push_str(&mut out, " output dirs");
    }
    out
}

} // verus!
