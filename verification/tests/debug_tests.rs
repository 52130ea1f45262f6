use ascii_ansi_table::alignment::ColumnConfig;
use ascii_ansi_table::border::BorderChars;
use ascii_ansi_table::truncation::TruncationConfig;
use ascii_ansi_table::wrapping::WrapConfig;
use ascii_ansi_table::debug::{
    debug_table, debug_table_compact, debug_table_verbose, validate_and_recommend, DebugConfig, TableDebugger,
};
use ascii_ansi_table::renderer::RenderOptions;
use ascii_ansi_table::table_data::TableData;

#[test]
fn test_debug_config_presets() {
    let default = DebugConfig::default();
    assert!(default.show_dimensions);
    assert!(default.show_column_widths);

    let verbose = DebugConfig::verbose();
    assert!(verbose.show_performance_stats);
    assert!(verbose.show_border_info);

    let compact = DebugConfig::compact();
    assert!(compact.compact_output);
    assert!(!compact.use_colors);
}

#[test]
fn test_table_debugger() {
    let data = TableData::new(vec![
        vec!["Name".to_string(), "Age".to_string()],
        vec!["Alice".to_string(), "30".to_string()],
        vec!["Bob".to_string(), "25".to_string()],
    ]);

    let debugger = TableDebugger::new(DebugConfig::default());
    let analysis = debugger.analyze_table(&data);

    assert!(analysis.contains("Rows: 3"));
    assert!(analysis.contains("Columns: 2"));
    assert!(analysis.contains("Column 0"));
    assert!(analysis.contains("Column 1"));
}

#[test]
fn test_data_type_classification() {
    let debugger = TableDebugger::new(DebugConfig::default());

    assert_eq!(debugger.classify_data_type(""), "empty");
    assert_eq!(debugger.classify_data_type("123"), "integer");
    assert_eq!(debugger.classify_data_type("12.34"), "number");
    assert_eq!(debugger.classify_data_type("hello"), "text");
    assert_eq!(debugger.classify_data_type("line1\nline2"), "multiline");
    assert_eq!(debugger.classify_data_type("café"), "unicode");
}

#[test]
fn test_validation_and_recommendations() {
    let valid_data = TableData::new(vec![
        vec!["A".to_string(), "B".to_string()],
        vec!["1".to_string(), "2".to_string()],
    ]);

    let recommendations = validate_and_recommend(&valid_data);
    assert!(recommendations.contains("consistent column count"));

    let empty_data = TableData::new(vec![]);
    let empty_recommendations = validate_and_recommend(&empty_data);
    assert!(empty_recommendations.contains("Table is empty"));
}

#[test]
fn test_quick_debug_functions() {
    let data = TableData::new(vec![vec!["Test".to_string()]]);

    let debug_output = debug_table(&data);
    assert!(debug_output.contains("TABLE DEBUG ANALYSIS"));

    let compact_output = debug_table_compact(&data);
    assert!(compact_output.contains("Rows: 1"));

    let verbose_output = debug_table_verbose(&data);
    assert!(verbose_output.contains("Structure Analysis"));
}

#[test]
fn test_inconsistent_table_detection() {
    let inconsistent_data = TableData::new(vec![
        vec!["A".to_string(), "B".to_string(), "C".to_string()],
        vec!["1".to_string(), "2".to_string()],
    ]);

    let debugger = TableDebugger::new(DebugConfig::verbose());
    let analysis = debugger.analyze_table(&inconsistent_data);

    assert!(analysis.contains("inconsistent column count"));
}

#[test]
fn test_special_character_detection() {
    let special_data = TableData::new(vec![vec![
        "Hello\nWorld".to_string(),
        "Café".to_string(),
        "😀".to_string(),
    ]]);

    let debugger = TableDebugger::new(DebugConfig::verbose());
    let analysis = debugger.analyze_table(&special_data);

    assert!(analysis.contains("Special characters detected"));
}

#[test]
fn minimal_analysis_exact_text() {
    let data = TableData::new(vec![
        vec!["a".to_string(), "12".to_string()],
        vec!["b\nc".to_string(), "x".to_string(), "extra".to_string()],
    ]);
    let debugger = TableDebugger::new(DebugConfig::minimal());
    let analysis = debugger.analyze_table(&data);
    assert_eq!(
        analysis,
        "=== TABLE DEBUG ANALYSIS ===\n--- Table Dimensions ---\nRows: 2\nColumns: 2\nTotal cells: 4\n\n--- Structure Analysis ---\n❌ Found 1 rows with inconsistent column count:\n  Row 1: 3 columns (expected 2)\n\nData type analysis per column:\n  Column 0: char (1), text (1)\n  Column 1: integer (1), char (1)\n\nSpecial characters detected: newlines\n  💡 Consider using render_table_with_newlines() for multi-line cells\n"
    );
}

#[test]
fn compact_preview_cuts_cells() {
    let data = TableData::new(vec![vec!["abcdefghijklmnop".to_string()]]);
    let debugger = TableDebugger::new(DebugConfig::compact());
    let analysis = debugger.analyze_table(&data);
    assert!(analysis.contains("Row 0: [\"abcdefghij...\"]\n"));
}

#[test]
fn classification_of_other_kinds() {
    let debugger = TableDebugger::new(DebugConfig::default());
    assert_eq!(debugger.classify_data_type("1e5"), "number");
    assert_eq!(debugger.classify_data_type("-inf"), "number");
    assert_eq!(debugger.classify_data_type("NaN"), "number");
    assert_eq!(debugger.classify_data_type("1.2.3"), "mixed");
    assert_eq!(debugger.classify_data_type("x"), "char");
    assert_eq!(debugger.classify_data_type("\x1b[1m"), "ansi");
    assert_eq!(debugger.classify_data_type("a-b"), "mixed");
    assert_eq!(debugger.classify_data_type("."), "char");
}

#[test]
fn empty_table_analysis_warns() {
    let data = TableData::new(vec![]);
    let debugger = TableDebugger::new(DebugConfig::compact());
    assert_eq!(
        debugger.analyze_table(&data),
        "=== TABLE DEBUG ANALYSIS ===\n--- Table Dimensions ---\nRows: 0\nColumns: 0\nTotal cells: 0\n⚠️  Table is empty!\n"
    );
}

#[test]
fn preview_rendering_with_border_info() {
    let data = TableData::new(vec![vec!["a".to_string()]]);
    let debugger = TableDebugger::new(DebugConfig::verbose());
    let out = debugger
        .preview_rendering(&data, &BorderChars::default(), &RenderOptions::default())
        .unwrap();
    assert!(out.starts_with("--- Border Configuration ---\nTop Left: '┌' (9484)\n"));
    assert!(out.contains("Options: RenderOptions { show_top_border: true, show_bottom_border: true, show_row_separators: false }\n\n"));
    assert!(out.ends_with("└───┘\n"));
}

#[test]
fn large_and_unicode_recommendations() {
    let data = TableData::new(vec![vec!["é".to_string()]]);
    let text = validate_and_recommend(&data);
    assert!(text.contains("🌐 Unicode content detected\n"));
    let bad = TableData::new(vec![vec!["a".to_string(), "b".to_string()], vec!["c".to_string()]]);
    assert!(validate_and_recommend(&bad).contains("❌ 1 rows have inconsistent column count\n"));
}

#[test]
fn column_lines_write_each_setting_in_debug_form() {
    let data = TableData::new(vec![vec!["a".to_string()]]);
    let plain = ColumnConfig::new();
    let wrapped = ColumnConfig::new()
        .with_width(8)
        .with_truncation(TruncationConfig::new().with_max_width(5).with_ellipsis("\"\\\t"))
        .with_wrapping(WrapConfig::new(10));
    let debugger = TableDebugger::new(DebugConfig::verbose());
    let report = debugger.analyze_with_config(&data, &[plain.clone(), wrapped.clone()]);
    let plain_text = "ColumnConfig { width: None, alignment: Left, vertical_alignment: Top, padding: Padding { left: 1, right: 1 }, truncation: TruncationConfig { max_width: None, ellipsis: \"...\", truncate_start: false }, wrap_config: None }";
    assert_eq!(format!("{:?}", plain), plain_text);
    let expected_tail = format!(
        "\n--- Column Configuration Analysis ---\nColumn 0: {:?}\nColumn 1: {:?}\n",
        plain, wrapped
    );
    assert!(report.ends_with(&expected_tail));
    assert!(report.contains("Column 1: ColumnConfig { width: Some(8), "));
    assert!(report.contains("ellipsis: \"\\\"\\\\\\t\""));
    assert!(report.contains("wrap_config: Some(WrapConfig { mode: Word, width: 10, preserve_whitespace: false }) }"));
}
