use ascii_ansi_table::single_line::{
    render_compact_single_line, render_key_value_pairs, render_single_line_table, render_transposed_single_line, SummaryRenderer,
    SingleLineConfig,
};
use ascii_ansi_table::table_data::TableData;

#[test]
fn test_single_line_config() {
    let config = SingleLineConfig::new().with_separator(" | ").with_quotes('"').with_max_field_width(10);
    assert_eq!(config.separator, " | ");
    assert!(config.quote_fields);
    assert_eq!(config.quote_character, '"');
    assert_eq!(config.max_field_width, Some(10));
}

#[test]
fn test_render_single_line_table() {
    let data = TableData::new(vec![
        vec!["Name".to_string(), "Age".to_string(), "City".to_string()],
        vec!["Alice".to_string(), "30".to_string(), "New York".to_string()],
        vec!["Bob".to_string(), "25".to_string(), "London".to_string()],
    ]);
    let config = SingleLineConfig::new();
    let result = render_single_line_table(&data, &config).unwrap();
    assert!(result.contains("Name | Age | City"));
    assert!(result.contains("Alice | 30 | New York"));
    assert!(result.contains("Bob | 25 | London"));
    let lines: Vec<&str> = result.lines().collect();
    assert_eq!(lines.len(), 3);
}

#[test]
fn test_csv_format() {
    let data = TableData::new(vec![
        vec!["Product".to_string(), "Price".to_string()],
        vec!["Widget".to_string(), "$19.99".to_string()],
        vec!["Gadget".to_string(), "$29.99".to_string()],
    ]);
    let config = SingleLineConfig::csv();
    let result = render_single_line_table(&data, &config).unwrap();
    assert!(result.contains("\"Product\",\"Price\""));
    assert!(result.contains("\"Widget\",\"$19.99\""));
    assert!(result.contains("\"Gadget\",\"$29.99\""));
}

#[test]
fn test_tsv_format() {
    let data = TableData::new(vec![
        vec!["Header1".to_string(), "Header2".to_string()],
        vec!["Data1".to_string(), "Data2".to_string()],
    ]);
    let config = SingleLineConfig::tsv();
    let result = render_single_line_table(&data, &config).unwrap();
    assert!(!result.contains("Header1"));
    assert!(result.contains("Data1\tData2"));
}

#[test]
fn test_render_compact_single_line() {
    let data = TableData::new(vec![
        vec!["A".to_string(), "B".to_string()],
        vec!["1".to_string(), "2".to_string()],
        vec!["3".to_string(), "4".to_string()],
    ]);
    let config = SingleLineConfig::new();
    let result = render_compact_single_line(&data, &config).unwrap();
    assert!(!result.contains('\n'));
    assert!(result.contains("A | B"));
    assert!(result.contains("1 | 2"));
    assert!(result.contains("3 | 4"));
}

#[test]
fn test_key_value_pairs() {
    let data = TableData::new(vec![
        vec!["Key".to_string(), "Value1".to_string(), "Value2".to_string()],
        vec!["Name".to_string(), "Alice".to_string(), "Engineer".to_string()],
        vec!["Age".to_string(), "30".to_string(), "Years".to_string()],
    ]);
    let config = SingleLineConfig::new().without_headers();
    let result = render_key_value_pairs(&data, &config).unwrap();
    assert!(result.contains("Name: Alice | Engineer"));
    assert!(result.contains("Age: 30 | Years"));
}

#[test]
fn test_transposed_single_line() {
    let data = TableData::new(vec![
        vec!["A".to_string(), "B".to_string(), "C".to_string()],
        vec!["1".to_string(), "2".to_string(), "3".to_string()],
        vec!["X".to_string(), "Y".to_string(), "Z".to_string()],
    ]);
    let config = SingleLineConfig::new();
    let result = render_transposed_single_line(&data, &config).unwrap();
    assert!(result.contains("A | 1 | X"));
    assert!(result.contains("B | 2 | Y"));
    assert!(result.contains("C | 3 | Z"));
    let lines: Vec<&str> = result.lines().collect();
    assert_eq!(lines.len(), 3);
}

#[test]
fn test_quote_escaping() {
    let data = TableData::new(vec![vec!["Field with \"quotes\"".to_string(), "Normal".to_string()]]);
    let config = SingleLineConfig::new().with_quotes('"');
    let result = render_single_line_table(&data, &config).unwrap();
    assert!(result.contains("\"Field with \\\"quotes\\\"\""));
    assert!(result.contains("\"Normal\""));
}

#[test]
fn single_line_test_empty_table_handling() {
    let data = TableData::new(vec![]);
    let config = SingleLineConfig::new();
    let result = render_single_line_table(&data, &config).unwrap();
    assert_eq!(result, "");
}

#[test]
fn test_max_field_width() {
    let data = TableData::new(vec![vec!["This is a very long field that should be truncated".to_string()]]);
    let config = SingleLineConfig::new().with_max_field_width(10);
    let result = render_single_line_table(&data, &config).unwrap();
    assert!(result.contains("This is..."));
    assert!(!result.contains("truncated"));
}

#[test]
fn ragged_rows_and_narrow_tables_are_refused() {
    let ragged = TableData::new(vec![vec!["a".to_string(), "b".to_string()], vec!["c".to_string()]]);
    let config = SingleLineConfig::new();
    assert_eq!(
        render_single_line_table(&ragged, &config).unwrap_err(),
        "Row 1 has 1 columns, expected 2 columns"
    );
    let narrow = TableData::new(vec![vec!["a".to_string()]]);
    assert_eq!(
        render_key_value_pairs(&narrow, &config).unwrap_err(),
        "Key-value format requires at least 2 columns"
    );
}

#[test]
fn transposed_table_is_the_table_of_its_columns() {
    let rows = vec![
        vec!["A".to_string(), "B".to_string(), "C".to_string()],
        vec!["1".to_string(), "2".to_string(), "3".to_string()],
        vec!["X".to_string(), "Y".to_string(), "Z".to_string()],
    ];
    let columns: Vec<Vec<String>> = (0..3).map(|c| rows.iter().map(|r| r[c].clone()).collect()).collect();
    let config = SingleLineConfig::new();
    let transposed = render_transposed_single_line(&TableData::new(rows), &config).unwrap();
    assert_eq!(transposed, "A | 1 | X\nB | 2 | Y\nC | 3 | Z");
    assert_eq!(transposed, render_single_line_table(&TableData::new(columns), &config).unwrap());
}

#[test]
fn summary_counts_rows_columns_cells_and_empty_cells() {
    let data = TableData::new(vec![
        vec!["Name".to_string(), "Age".to_string()],
        vec!["Alice".to_string(), "30".to_string()],
        vec!["Bob".to_string(), "".to_string()],
        vec!["Carol".to_string(), "35".to_string()],
    ]);
    let s = SummaryRenderer::table_summary(&data).unwrap();
    assert_eq!(s.row_count, 4);
    assert_eq!(s.column_count, 2);
    assert_eq!(s.total_cells, 8);
    assert_eq!(s.empty_cells, 1);
    assert_eq!(s.total_length, 4 + 3 + 5 + 2 + 3 + 5 + 2);
    assert!(SummaryRenderer::table_summary(&TableData::new(vec![])).is_none());
}

#[test]
fn column_summaries_give_lengths_and_empty_cells() {
    let data = TableData::new(vec![
        vec!["Short".to_string(), "Very Long Text".to_string()],
        vec!["A".to_string(), "Medium".to_string()],
        vec!["".to_string(), "B".to_string()],
    ]);
    let cols = SummaryRenderer::column_summaries(&data);
    assert_eq!(cols.len(), 2);
    assert_eq!((cols[0].max_len, cols[0].min_len, cols[0].total_length, cols[0].cell_count, cols[0].empty_count), (5, 0, 6, 3, 1));
    assert_eq!((cols[1].max_len, cols[1].min_len, cols[1].total_length, cols[1].cell_count, cols[1].empty_count), (14, 1, 21, 3, 0));
    assert!(SummaryRenderer::column_summaries(&TableData::new(vec![])).is_empty());
}
