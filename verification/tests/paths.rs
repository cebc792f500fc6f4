use cgo_gen::paths::relative_path_text;

#[test]
fn header_below_output_dir_is_written_from_it() {
    assert_eq!(relative_path_text("/work/gen/include/a.h", "/work/gen"), "include/a.h");
}

#[test]
fn header_beside_output_dir_climbs_out_of_it() {
    assert_eq!(relative_path_text("/work/include/a.h", "/work/gen"), "../include/a.h");
    assert_eq!(relative_path_text("/a.h", "/work/gen/out"), "../../../a.h");
}

#[test]
fn same_directory_is_dot_and_empty_components_are_ignored() {
    assert_eq!(relative_path_text("/work/gen/", "/work//gen"), ".");
    assert_eq!(relative_path_text("/work/./x.h", "/work"), "x.h");
}
