use cgo_gen::types::{fixed_array_elem_type, fixed_array_length};

#[test]
fn formatted_array_spelling_reads_back() {
    for (elem, n) in [("int", 4usize), ("unsigned char", 16), ("Foo[2]", 3), ("ns::Point", 1)] {
        let s = format!("{elem}[{n}]");
        assert_eq!(fixed_array_elem_type(&s), Some(elem.to_string()));
        assert_eq!(fixed_array_length(&s), Some(n));
    }
}

#[test]
fn zero_length_array_is_not_fixed() {
    assert_eq!(fixed_array_elem_type("int[0]"), None);
    assert_eq!(fixed_array_length("int[0]"), None);
}
