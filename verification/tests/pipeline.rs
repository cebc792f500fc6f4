use cgo_gen::env::{expand_env_vars_in_str, EnvVar};
use cgo_gen::pipeline::{
    claim_owned_handles, emitted_handles_per_unit, exported_cxxflags, go_package_name, multi_header_error, render_build_flags,
    render_go_mod, sorted_unique, trim_trailing_blank_lines, union_handles,
};
use cgo_gen::resolve::{plan_clang_args, plan_ldflags, ArgPiece};
use cgo_gen::spelling::{canonicalize_type_name, leading_local_includes, normalize_macro_integer_literal};
use cgo_gen::{Config, PipelineContext};

fn strings(items: &[&str]) -> Vec<String> {
    items.iter().map(|s| s.to_string()).collect()
}

fn env(pairs: &[(&str, &str)]) -> Vec<EnvVar> {
    pairs
        .iter()
        .map(|(n, v)| EnvVar {
            name: n.to_string(),
            value: Some(v.to_string()),
        })
        .collect()
}

fn piece_text(p: &ArgPiece) -> String {
    match p {
        ArgPiece::Text(t) => format!("text:{t}"),
        ArgPiece::Path { prefix, value } => format!("path:{prefix}|{value}"),
    }
}

fn ctx_with_args(clang_args: &[&str], ldflags: &[&str], dir: &str) -> PipelineContext {
    let mut config = Config::default();
    config.input.clang_args = strings(clang_args);
    config.input.ldflags = strings(ldflags);
    config.output.dir = dir.to_string();
    PipelineContext::new(config)
}

#[test]
fn exported_cxxflags_keep_includes_defines_and_standard() {
    let ctx = ctx_with_args(
        &["-I", "inc", "-Iother", "-isystem", "sys", "-DFOO=1", "-std=c++17", "-O2", "-D"],
        &[],
        "gen",
    );
    assert_eq!(
        exported_cxxflags(&ctx),
        strings(&["-I${SRCDIR}", "-I", "inc", "-Iother", "-DFOO=1", "-std=c++17"])
    );
}

#[test]
fn exported_cxxflags_drop_bare_prefixes_and_other_flags() {
    let ctx = ctx_with_args(&["-I", "-Wall", "-x", "c++"], &[], "gen");
    assert_eq!(exported_cxxflags(&ctx), strings(&["-I${SRCDIR}", "-I", "-Wall"]));
    let ctx = ctx_with_args(&["-isystem"], &[], "gen");
    assert_eq!(exported_cxxflags(&ctx), strings(&["-I${SRCDIR}"]));
}

#[test]
fn go_package_name_sanitizes_directory_name() {
    assert_eq!(go_package_name("out/My-Pkg.v2"), "my_pkg_v2");
    assert_eq!(go_package_name("gen"), "gen");
    assert_eq!(go_package_name("a/b/snake_Case9"), "snake_case9");
    assert_eq!(go_package_name(""), "bindings");
    assert_eq!(go_package_name("/"), "bindings");
}

#[test]
fn go_mod_names_module_and_version() {
    assert_eq!(
        render_go_mod("example.com/demo", "1.26"),
        "module example.com/demo\n\ngo 1.26\n"
    );
}

#[test]
fn build_flags_without_ldflags() {
    let ctx = ctx_with_args(&["-Iinclude"], &[], "out/demo");
    assert_eq!(
        render_build_flags(&ctx),
        "package demo\n\n/*\n#cgo CFLAGS: -I${SRCDIR}\n#cgo CXXFLAGS: -I${SRCDIR} -Iinclude\n*/\nimport \"C\"\n"
    );
}

#[test]
fn build_flags_with_ldflags() {
    let ctx = ctx_with_args(&[], &["-L/opt/lib", "-lfoo"], "gen");
    assert_eq!(
        render_build_flags(&ctx),
        "package gen\n\n/*\n#cgo CFLAGS: -I${SRCDIR}\n#cgo CXXFLAGS: -I${SRCDIR}\n#cgo LDFLAGS: -L/opt/lib -lfoo\n*/\nimport \"C\"\n"
    );
}

#[test]
fn build_flags_export_raw_clang_args_not_resolved_ones() {
    let ctx = ctx_with_args(&["-I/abs/resolved"], &[], "gen").with_raw_clang_args(strings(&["-I$(ROOT)/inc", "-O2"]));
    assert_eq!(
        render_build_flags(&ctx),
        "package gen\n\n/*\n#cgo CFLAGS: -I${SRCDIR}\n#cgo CXXFLAGS: -I${SRCDIR} -I$(ROOT)/inc\n*/\nimport \"C\"\n"
    );
}

#[test]
fn trailing_blank_lines_are_trimmed_to_one_newline() {
    assert_eq!(trim_trailing_blank_lines("a\n\n\n"), "a\n");
    assert_eq!(trim_trailing_blank_lines("a\n"), "a\n");
    assert_eq!(trim_trailing_blank_lines("a"), "a");
    assert_eq!(trim_trailing_blank_lines("\n\n"), "\n");
}

#[test]
fn trimming_twice_changes_nothing_more() {
    let once = trim_trailing_blank_lines("x\ny\n\n\n\n");
    assert_eq!(trim_trailing_blank_lines(&once), once);
}

#[test]
fn sorted_unique_orders_and_dedups() {
    assert_eq!(
        sorted_unique(&strings(&["b", "a", "b", "c", "a"])),
        strings(&["a", "b", "c"])
    );
}

#[test]
fn multi_header_rejects_explicit_names() {
    let config = Config::default();
    assert_eq!(multi_header_error(&config, 2), None);
    let mut named = Config::default();
    named.output.header = "custom.h".to_string();
    assert_eq!(multi_header_error(&named, 1), None);
    assert_eq!(
        multi_header_error(&named, 3).as_deref(),
        Some("multi-header generation does not support explicit output.header/source/ir overrides; leave them as defaults to emit one wrapper set per header")
    );
}

#[test]
fn union_and_claims_of_owned_handles() {
    let lists = vec![strings(&["FooHandle", "BarHandle"]), strings(&["BarHandle", "BazHandle"])];
    assert_eq!(union_handles(&lists), strings(&["BarHandle", "BazHandle", "FooHandle"]));
    assert_eq!(
        claim_owned_handles(&lists),
        vec![strings(&["FooHandle", "BarHandle"]), strings(&["BazHandle"])]
    );
}

#[test]
fn env_references_expand_in_three_forms() {
    let vars = env(&[("ROOT", "/opt"), ("V", "1")]);
    assert_eq!(
        expand_env_vars_in_str("$ROOT/a ${V} $(V)", "input.clang_args", &vars),
        Ok("/opt/a 1 1".to_string())
    );
    assert_eq!(
        expand_env_vars_in_str("no refs", "input.clang_args", &vars),
        Ok("no refs".to_string())
    );
}

#[test]
fn missing_env_reference_is_an_error() {
    let err = expand_env_vars_in_str("$MISSING/x", "input.ldflags", &env(&[])).unwrap_err();
    assert!(err.contains("MISSING"));
    assert!(err.contains("input.ldflags"));
}

#[test]
fn clang_args_split_paths_from_text() {
    let vars = env(&[("INC", "include")]);
    let pieces = plan_clang_args(
        &strings(&["-I", "$INC", "-I${INC}/x", "-isystem/sys", "-DX=1"]),
        &vars,
    )
    .unwrap();
    let shown: Vec<String> = pieces.iter().map(piece_text).collect();
    assert_eq!(
        shown,
        strings(&[
            "text:-I",
            "path:|include",
            "path:-I|include/x",
            "path:-isystem|/sys",
            "text:-DX=1",
        ])
    );
}

#[test]
fn ldflags_split_paths_from_text() {
    let vars = env(&[("LIB", "lib")]);
    let pieces = plan_ldflags(&strings(&["-L", "$LIB", "-L$LIB/x", "-lfoo"]), &vars).unwrap();
    let shown: Vec<String> = pieces.iter().map(piece_text).collect();
    assert_eq!(
        shown,
        strings(&["text:-L", "path:|lib", "path:-L|lib/x", "text:-lfoo"])
    );
    assert!(plan_ldflags(&strings(&["-L$NOPE"]), &env(&[])).is_err());
}

#[test]
fn type_names_are_canonicalized() {
    assert_eq!(canonicalize_type_name("  const   Foo &  "), "const Foo&");
    assert_eq!(canonicalize_type_name("std::vector< int >"), "std::vector<int>");
    assert_eq!(canonicalize_type_name("char * const"), "char*const");
}

#[test]
fn macro_integer_literals_are_normalized() {
    assert_eq!(normalize_macro_integer_literal(" 42 "), Some("42".to_string()));
    assert_eq!(normalize_macro_integer_literal("((0x1Fu))"), Some("0x1Fu".to_string()));
    assert_eq!(normalize_macro_integer_literal("-7L"), Some("-7L".to_string()));
    assert_eq!(normalize_macro_integer_literal("1.5"), None);
    assert_eq!(normalize_macro_integer_literal("0x"), None);
    assert_eq!(normalize_macro_integer_literal(""), None);
    assert_eq!(normalize_macro_integer_literal("(1)+(2)"), None);
}

#[test]
fn leading_local_includes_stop_at_first_declaration() {
    let contents = "// header\n#pragma once\n#include \"a.h\"\n#include <vector>\n\n#include \"b/c.hpp\"\nint x;\n#include \"late.h\"\n";
    assert_eq!(leading_local_includes(contents), strings(&["a.h", "b/c.hpp"]));
}

#[test]
fn emitted_handles_grow_with_each_unit_opaque_types() {
    let base = vec![strings(&["BHandle", "AHandle"]), strings(&["OwnedHandle"])];
    let units = vec![strings(&["XHandle", "AHandle"]), strings(&["YHandle"]), strings(&[])];
    let emitted = emitted_handles_per_unit(&base, &units);
    assert_eq!(emitted.len(), 3);
    assert_eq!(emitted[0], strings(&["AHandle", "BHandle", "OwnedHandle"]));
    assert_eq!(emitted[1], strings(&["AHandle", "BHandle", "OwnedHandle", "XHandle"]));
    assert_eq!(emitted[2], strings(&["AHandle", "BHandle", "OwnedHandle", "XHandle", "YHandle"]));
}

#[test]
fn input_selection_needs_exactly_one_of_dir_and_headers() {
    let mut config = Config::default();
    assert_eq!(
        config.input.selection_error(),
        Some("config.input.dir or config.input.headers must be set".to_string())
    );
    config.input.dir = Some("include".to_string());
    assert_eq!(config.input.selection_error(), None);
    config.input.headers = strings(&["include/widget.hpp"]);
    assert_eq!(
        config.input.selection_error(),
        Some("input.headers cannot be combined with input.dir".to_string())
    );
    config.input.dir = None;
    assert_eq!(config.input.selection_error(), None);
}
