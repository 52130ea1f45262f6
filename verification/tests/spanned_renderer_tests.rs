use ascii_ansi_table::alignment::{Alignment, ColumnConfig};
use ascii_ansi_table::border::BorderChars;
use ascii_ansi_table::renderer::RenderOptions;
use ascii_ansi_table::spanned_renderer::render_spanned_table;
use ascii_ansi_table::spanning::{CellSpan, SpannedCell, SpannedTableData};

#[test]
fn test_render_simple_spanned_table() {
    let mut data = SpannedTableData::new(2, 3);

    data.set_cell(0, 0, SpannedCell::with_span("Spanning Header".to_string(), CellSpan::horizontal(2))).unwrap();
    data.set_cell(0, 2, SpannedCell::new("C".to_string())).unwrap();
    data.set_cell(1, 0, SpannedCell::new("A".to_string())).unwrap();
    data.set_cell(1, 1, SpannedCell::new("B".to_string())).unwrap();
    data.set_cell(1, 2, SpannedCell::new("C".to_string())).unwrap();

    let column_configs = vec![
        ColumnConfig::default().with_width(8),
        ColumnConfig::default().with_width(8),
        ColumnConfig::default().with_width(8),
    ];

    let border = BorderChars::default();
    let options = RenderOptions::default();
    let result = render_spanned_table(&data, &border, &options, &column_configs).unwrap();

    assert!(result.contains("Spanning Header"));
    assert!(result.contains("A"));
    assert!(result.contains("B"));
    assert!(result.contains("C"));

    let lines: Vec<&str> = result.lines().collect();
    assert!(lines.len() >= 4);
}

#[test]
fn test_vertical_span() {
    let mut data = SpannedTableData::new(3, 2);

    data.set_cell(0, 0, SpannedCell::with_span("Tall Cell".to_string(), CellSpan::vertical(2))).unwrap();
    data.set_cell(0, 1, SpannedCell::new("Header".to_string())).unwrap();
    data.set_cell(1, 1, SpannedCell::new("Row 2".to_string())).unwrap();
    data.set_cell(2, 0, SpannedCell::new("Bottom".to_string())).unwrap();
    data.set_cell(2, 1, SpannedCell::new("Row 3".to_string())).unwrap();

    let column_configs = vec![ColumnConfig::default().with_width(10), ColumnConfig::default().with_width(10)];

    let border = BorderChars::default();
    let options = RenderOptions::default();
    let result = render_spanned_table(&data, &border, &options, &column_configs).unwrap();

    assert!(result.contains("Tall Cell"));
    assert!(result.contains("Header"));
    assert!(result.contains("Row 2"));
    assert!(result.contains("Bottom"));

    let lines: Vec<&str> = result.lines().collect();
    assert!(lines.len() >= 5);
}

#[test]
fn test_mixed_spans() {
    let mut data = SpannedTableData::new(3, 3);

    data.set_cell(0, 0, SpannedCell::with_span("Big Cell".to_string(), CellSpan::new(2, 2))).unwrap();
    data.set_cell(0, 2, SpannedCell::new("Corner".to_string())).unwrap();
    data.set_cell(1, 2, SpannedCell::new("Middle".to_string())).unwrap();
    data.set_cell(2, 0, SpannedCell::new("Bottom L".to_string())).unwrap();
    data.set_cell(2, 1, SpannedCell::new("Bottom M".to_string())).unwrap();
    data.set_cell(2, 2, SpannedCell::new("Bottom R".to_string())).unwrap();

    let column_configs = vec![
        ColumnConfig::default().with_width(8),
        ColumnConfig::default().with_width(8),
        ColumnConfig::default().with_width(8),
    ];

    let border = BorderChars::default();
    let options = RenderOptions::default();
    let result = render_spanned_table(&data, &border, &options, &column_configs).unwrap();

    assert!(result.contains("Big Cell"));
    assert!(result.contains("Corner"));
    assert!(result.contains("Bottom"));

    let lines: Vec<&str> = result.lines().collect();
    assert!(lines.len() >= 5);
}

#[test]
fn test_spanned_cell_alignment() {
    let mut data = SpannedTableData::new(2, 3);

    data.set_cell(0, 0, SpannedCell::with_span("Center This Text".to_string(), CellSpan::horizontal(3))).unwrap();
    data.set_cell(1, 0, SpannedCell::new("A".to_string())).unwrap();
    data.set_cell(1, 1, SpannedCell::new("B".to_string())).unwrap();
    data.set_cell(1, 2, SpannedCell::new("C".to_string())).unwrap();

    let column_configs = vec![
        ColumnConfig::default().with_width(10).with_alignment(Alignment::Center),
        ColumnConfig::default().with_width(10),
        ColumnConfig::default().with_width(10),
    ];

    let border = BorderChars::default();
    let options = RenderOptions::default();
    let result = render_spanned_table(&data, &border, &options, &column_configs).unwrap();

    assert!(result.contains("Center This Text"));
    assert!(result.contains("A"));
    assert!(result.contains("B"));
    assert!(result.contains("C"));
}

#[test]
fn test_empty_spanned_table() {
    let data = SpannedTableData::new(0, 0);
    let result = render_spanned_table(&data, &BorderChars::default(), &RenderOptions::default(), &[]).unwrap();
    assert_eq!(result, "");
}

#[test]
fn spanned_exact_text() {
    let mut data = SpannedTableData::new(2, 2);
    data.set_cell(0, 0, SpannedCell::with_span("ab".to_string(), CellSpan::horizontal(2))).unwrap();
    data.set_cell(1, 0, SpannedCell::new("c".to_string())).unwrap();
    data.set_cell(1, 1, SpannedCell::new("d".to_string())).unwrap();
    let configs = vec![ColumnConfig::default().with_width(1), ColumnConfig::default().with_width(1)];
    let result = render_spanned_table(&data, &BorderChars::default(), &RenderOptions::with_row_separators(), &configs).unwrap();
    assert_eq!(result, "┌───────┐\n│ ab  │\n├───────┤\n│ c │ d │\n└───┴───┘\n");
}
