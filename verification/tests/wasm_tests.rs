use ascii_ansi_table::wasm::WasmUtils;

#[test]
fn csv_with_rows_of_equal_length_is_valid() {
    assert!(WasmUtils::validate_csv("a,b,c\n1,2,3\n\n4,5,6\n", None));
    assert!(!WasmUtils::validate_csv("a,b,c\n1,2\n", None));
    assert!(!WasmUtils::validate_csv("  \n\t\n", None));
    assert!(WasmUtils::validate_csv("a;b\n1;2", Some(";".to_string())));
    assert!(!WasmUtils::validate_csv("a;b\n1;2;3", Some(";".to_string())));
}

#[test]
fn csv_dimensions_count_nonblank_lines_and_first_fields() {
    assert_eq!(WasmUtils::csv_dimensions("a,b,c\n1,2,3\n   \n4,5,6", None), (3, 3));
    assert_eq!(WasmUtils::csv_dimensions("", None), (0, 0));
    assert_eq!(WasmUtils::csv_dimensions("x|y\n1|2", Some("|".to_string())), (2, 2));
}

#[test]
fn separator_is_detected_from_the_first_line() {
    assert_eq!(WasmUtils::detect_csv_separator("a\tb\tc\n1,2,3,4"), "\t");
    assert_eq!(WasmUtils::detect_csv_separator("a;b;c"), ";");
    assert_eq!(WasmUtils::detect_csv_separator("a|b|c,d"), "|");
    assert_eq!(WasmUtils::detect_csv_separator("a,b;c"), ",");
    assert_eq!(WasmUtils::detect_csv_separator(""), ",");
}
