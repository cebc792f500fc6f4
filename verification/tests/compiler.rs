use std::path::PathBuf;

use cgo_gen::compiler::{
    collect_clang_args, is_header_file, is_source_translation_unit_file,
    parse_driver_include_search_list,
};
use cgo_gen::Config;

#[test]
fn parses_driver_include_search_list_from_verbose_output() {
    let stderr = r#"
#include "..." search starts here:
#include <...> search starts here:
 /usr/include/c++/13
 /usr/include/x86_64-linux-gnu/c++/13
 /usr/lib/llvm-18/lib/clang/18/include
 /usr/local/include
 /usr/include/x86_64-linux-gnu
 /usr/include
End of search list.
"#;

    let includes = parse_driver_include_search_list(stderr)
        .into_iter()
        .map(PathBuf::from)
        .filter(|path| path.exists())
        .collect::<Vec<_>>();
    assert_eq!(
        includes,
        vec![
            PathBuf::from("/usr/include/c++/13"),
            PathBuf::from("/usr/include/x86_64-linux-gnu/c++/13"),
            PathBuf::from("/usr/lib/llvm-18/lib/clang/18/include"),
            PathBuf::from("/usr/local/include"),
            PathBuf::from("/usr/include/x86_64-linux-gnu"),
            PathBuf::from("/usr/include"),
        ]
        .into_iter()
        .filter(|path| path.exists())
        .collect::<Vec<_>>()
    );
}

#[test]
fn driver_search_list_lists_candidates_in_order() {
    let stderr = "noise\n#include <...> search starts here:\n /a\n (framework directory) /b\n\n /c \r\nEnd of search list.\n /d\n";
    assert_eq!(
        parse_driver_include_search_list(stderr),
        vec!["/a".to_string(), "/c".to_string()]
    );
}

#[test]
fn clang_args_add_language_standard_and_entry_directory() {
    let config = Config::default();
    let args = collect_clang_args(&config, Some("include".to_string()), None, &vec![]);
    assert_eq!(
        args,
        vec![
            "-x".to_string(),
            "c++".to_string(),
            "-std=c++17".to_string(),
            "-Iinclude".to_string(),
        ]
    );
}

#[test]
fn clang_args_keep_existing_choices() {
    let mut config = Config::default();
    config.input.clang_args = vec![
        "-x".to_string(),
        "c".to_string(),
        "-std=c11".to_string(),
        "-I".to_string(),
        "include".to_string(),
        "-isystem/usr/include".to_string(),
    ];
    let args = collect_clang_args(
        &config,
        Some("include".to_string()),
        Some("/sdk".to_string()),
        &vec!["/usr/include".to_string(), "/opt/include".to_string()],
    );
    assert_eq!(
        args,
        vec![
            "-x".to_string(),
            "c".to_string(),
            "-std=c11".to_string(),
            "-I".to_string(),
            "include".to_string(),
            "-isystem/usr/include".to_string(),
            "-isysroot".to_string(),
            "/sdk".to_string(),
            "-isystem/opt/include".to_string(),
        ]
    );
}

#[test]
fn translation_units_are_recognised_by_extension() {
    assert!(is_source_translation_unit_file("src/a.cpp"));
    assert!(is_source_translation_unit_file("a.c"));
    assert!(!is_source_translation_unit_file("a.h"));
    assert!(is_header_file("include/a.hpp"));
    assert!(!is_header_file("a.cc"));
}
