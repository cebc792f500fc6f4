use cgo_gen::ir::SkippedDeclaration;
use cgo_gen::summary::{
    format_check_summary, format_generation_summary, skipped_category, CheckSummary,
    GenerationSummary,
};

#[test]
fn generation_summary_mentions_file_count_and_output_dir() {
    let mut summary = GenerationSummary::new();
    summary.record_file("examples/01-c-library/generated/calculator_wrapper.h");
    summary.record_file("examples/01-c-library/generated/calculator_wrapper.cpp");
    summary.record_file("examples/01-c-library/generated/calculator_wrapper.go");
    summary.record_file("examples/01-c-library/generated/calculator_wrapper.ir.yaml");

    assert_eq!(
        format_generation_summary(&summary),
        "generated 4 files in examples/01-c-library/generated"
    );
}

#[test]
fn generation_summary_counts_output_dirs() {
    let mut summary = GenerationSummary::new();
    assert_eq!(format_generation_summary(&summary), "generated 0 files");
    summary.record_file("out/a/x.h");
    assert_eq!(format_generation_summary(&summary), "generated 1 file in out/a");
    summary.record_file("out/b/y.h");
    assert_eq!(
        format_generation_summary(&summary),
        "generated 2 files in 2 output dirs"
    );
}

#[test]
fn check_summary_without_skips_matches_existing_output() {
    assert_eq!(
        format_check_summary(&CheckSummary {
            headers: 1,
            records: 2,
            functions: 3,
            enums: 4,
            abi_functions: 5,
            skipped_declarations: vec![],
        }),
        "ok: 1 headers, 2 records, 3 functions, 4 enums, 5 abi functions"
    );
}

#[test]
fn check_summary_with_skips_includes_warning_and_details() {
    let skipped = vec![
        SkippedDeclaration {
            cpp_name: "Value::operator==".to_string(),
            reason: "operator declarations are unsupported in v1".to_string(),
        },
        SkippedDeclaration {
            cpp_name: "set_callback".to_string(),
            reason: "parameter `cb` type `void (*)(int)` uses a function pointer".to_string(),
        },
    ];

    let output = format_check_summary(&CheckSummary {
        headers: 1,
        records: 1,
        functions: 1,
        enums: 0,
        abi_functions: 3,
        skipped_declarations: skipped,
    });

    assert!(output.contains(
        "ok with warnings: 1 headers, 1 records, 1 functions, 0 enums, 3 abi functions, 2 skipped declarations"
    ));
    assert!(output.contains(
        "warning: skipped declarations are omitted from generated wrappers and Go facades"
    ));
    assert!(output.contains("skip summary:"));
    assert!(output.contains(
        "- function pointer: 1 skipped; use a named callback typedef or an adapter function"
    ));
    assert!(output
        .contains("- operator: 1 skipped; expose a named method or free-function adapter instead"));
    assert!(output.contains("skipped declaration details:"));
    assert!(output
        .contains("[operator] Value::operator==: operator declarations are unsupported in v1"));
    assert!(output.contains(
        "[function pointer] set_callback: parameter `cb` type `void (*)(int)` uses a function pointer"
    ));
    assert!(output.contains("action: use a named callback typedef or an adapter function"));
}

#[test]
fn check_summary_with_many_skips_limits_details() {
    let skipped = (1..=6)
        .map(|index| SkippedDeclaration {
            cpp_name: format!("declaration_{index}"),
            reason: format!("reason {index}"),
        })
        .collect::<Vec<_>>();

    let output = format_check_summary(&CheckSummary {
        headers: 1,
        records: 1,
        functions: 1,
        enums: 0,
        abi_functions: 1,
        skipped_declarations: skipped,
    });

    assert!(output.contains("[unsupported type] declaration_1: reason 1"));
    assert!(output.contains("[unsupported type] declaration_5: reason 5"));
    assert!(!output.contains("[unsupported type] declaration_6: reason 6"));
    assert!(output.contains("... and 1 more skipped declarations"));
}

#[test]
fn skip_reasons_are_categorized_in_priority_order() {
    assert_eq!(skipped_category("abstract class with double-pointer").label, "abstract class");
    assert_eq!(skipped_category("unsupported double-pointer type").label, "double pointer");
    assert_eq!(skipped_category("raw by-value object").label, "raw by-value object");
    assert_eq!(skipped_category("anything else").label, "unsupported type");
}

#[test]
fn category_lines_follow_label_order() {
    let skipped = vec![
        SkippedDeclaration {
            cpp_name: "b".to_string(),
            reason: "unknown".to_string(),
        },
        SkippedDeclaration {
            cpp_name: "a".to_string(),
            reason: "abstract class".to_string(),
        },
    ];
    let output = format_check_summary(&CheckSummary {
        headers: 0,
        records: 0,
        functions: 0,
        enums: 0,
        abi_functions: 0,
        skipped_declarations: skipped,
    });
    let abstract_at = output.find("- abstract class: 1 skipped").unwrap();
    let unsupported_at = output.find("- unsupported type: 1 skipped").unwrap();
    assert!(abstract_at < unsupported_at);
}
