use ascii_ansi_table::alignment::ColumnConfig;
use ascii_ansi_table::border::BorderChars;
use ascii_ansi_table::multiline::render_table_with_wrapping;
use ascii_ansi_table::renderer::RenderOptions;
use ascii_ansi_table::table_data::TableData;
use ascii_ansi_table::wrapping::WrapConfig;

#[test]
fn test_basic_wrapping() {
    let data = TableData::new(vec![vec![
        "Short".to_string(),
        "This is a very long text that should wrap".to_string(),
    ]]);

    let column_configs = vec![ColumnConfig::default(), ColumnConfig::default().with_wrapping(WrapConfig::new(10))];

    let border = BorderChars::default();
    let options = RenderOptions::default();
    let result = render_table_with_wrapping(&data, &border, &options, &column_configs).unwrap();

    assert!(result.contains("Short"));
    assert!(result.contains("This is a"));
    assert!(result.contains("very long"));

    let lines: Vec<&str> = result.lines().collect();
    assert!(lines.len() > 3);
}

#[test]
fn wrapping_exact_text() {
    let data = TableData::new(vec![vec!["ab".to_string(), "one two".to_string()]]);
    let configs = vec![
        ColumnConfig::default(),
        ColumnConfig::default().with_width(3).with_wrapping(WrapConfig::new(3)),
    ];
    let result = render_table_with_wrapping(&data, &BorderChars::default(), &RenderOptions::default(), &configs).unwrap();
    assert_eq!(result, "┌────┬─────┐\n│ ab │ one │\n│    │ two │\n└────┴─────┘\n");
}
